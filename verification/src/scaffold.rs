//! What a new test target is made of: the source file it starts from and
//! the entry that registers it in the package's manifest.

use vstd::prelude::*;
use vstd::string::StringExecFns;

verus! {

/// The source of a new target that tests raw bytes.
pub const FUZZ_FILE: &'static str =
    "use bolero::fuzz;\n\nfuzz!(|input| {\n    if input.len() < 3 {\n        return;\n    }\n\n    if input[0] == 0 && input[1] == 1 && input[2] == 2 {\n        panic!(\"you found me!\");\n    }\n});\n";

/// The source of a new target that tests generated values.
pub const GENERATOR_FILE: &'static str =
    "use bolero::{fuzz, generator::*};\n\nfuzz!(for value in each(u8::gen()) {\n    assert!(value * 2 > value);\n});\n";

/// The request for a new test target.
#[derive(Debug)]
pub struct New {
    /// Name of the test target
    pub test: String,
    /// Package to run tests for
    pub package: Option<String>,
    /// Path to the manifest
    pub manifest_path: Option<String>,
    /// Generates a generator test
    pub generator: bool,
}

/// The manifest entry of the target `name`: a test without the default
/// harness whose source is `tests/<name>/main.rs`.
pub open spec fn spec_manifest_entry(name: Seq<char>) -> Seq<char> {
    "\n[[test]]\nname = \""@ + name + "\"\npath = \"tests/"@ + name
        + "/main.rs\"\nharness = false\n"@
}

impl New {
    /// The source that the target starts from.
    pub fn template(&self) -> (file: &'static str)
        ensures
            file@ == (if self.generator {
                GENERATOR_FILE@
            } else {
                FUZZ_FILE@
            }),
    {
        if self.generator {
            GENERATOR_FILE
        } else {
            FUZZ_FILE
        }
    }

    /// The entry that registers the target in the manifest.
    pub fn manifest_entry(&self) -> (entry: String)
        ensures
            entry@ == spec_manifest_entry(self.test@),
    {
        let mut entry = String::from_str("\n[[test]]\nname = \"");
        entry.append(self.test.as_str());
        entry.append("\"\npath = \"tests/");
        entry.append(self.test.as_str());
        entry.append("/main.rs\"\nharness = false\n");
        entry
    }

    /// Where the source of the target lies, seen from the package.
    pub fn source_path(&self) -> (path: String)
        ensures
            path@ == "tests/"@ + self.test@ + "/main.rs"@,
    {
        let mut path = String::from_str("tests/");
        path.append(self.test.as_str());
        path.append("/main.rs");
        path
    }
}

} // verus!
