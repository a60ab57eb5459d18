//! An operation that echoes its path parameter, for trying out path templates.

use vstd::prelude::*;
use vstd::string::*;

verus! {

/// The path parameter.
#[derive(Debug)]
pub struct TestPathTemplateParams {
    pub id: String,
}

impl Default for TestPathTemplateParams {
    fn default() -> (r: TestPathTemplateParams)
        ensures
            r.id@.len() == 0,
    {
        TestPathTemplateParams { id: String::new() }
    }
}

/// The path parameter again.
#[derive(Debug)]
pub struct TestPathTemplateOutput {
    pub echoed_id: String,
}

impl TestPathTemplateOutput {
    /// The echo with its name.
    pub fn to_markdown(&self) -> (r: String)
        ensures
            r@ == "echoed_id: "@ + self.echoed_id@,
    {
        let mut s: String = "echoed_id: ".to_owned();
        s.append(self.echoed_id.as_str());
        s
    }

    /// The echo alone.
    pub fn to_cli_text(&self) -> (r: String)
        ensures
            r@ == self.echoed_id@,
    {
        self.echoed_id.clone()
    }
}

/// Echoes the path parameter.
pub fn __test_path_template(params: TestPathTemplateParams) -> (r: TestPathTemplateOutput)
    ensures
        r.echoed_id == params.id,
{
    TestPathTemplateOutput { echoed_id: params.id }
}

} // verus!
