//! The login script handed to the portal page: a template whose
//! configuration placeholder is replaced by the run's settings as JSON.

use vstd::prelude::*;
use crate::text::{replace_all, replace_str};

verus! {

broadcast use vstd::string::group_string_axioms;

/// The placeholder in the script template.
pub const CFG_TOKEN: &'static str = "__YL_CFG__";

/// The script to evaluate: `template` with every placeholder replaced by
/// `cfg_json`.
pub fn build_auth_js(template: &str, cfg_json: &str) -> (js: String)
    ensures
        js@ == replace_all(template@, CFG_TOKEN@, cfg_json@),
{
    proof {
        reveal_strlit("__YL_CFG__");
    }
    replace_str(template, CFG_TOKEN, cfg_json)
}

} // verus!
