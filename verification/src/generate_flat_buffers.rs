//! The settings of a run of the `flatc` compiler on `.fbs` files, and the
//! command line that carries them out.
use vstd::prelude::*;

verus! {

/// The program that compiles `.fbs` files.
pub const FLATC_PATH: &'static str = "flatc";

/// The languages that `flatc` is asked to produce.
#[derive(Clone, Copy, Debug, PartialEq, Eq, Structural)]
pub enum OutputType {
    Rust,
    TypeScript,
}

/// Collects the settings of a `flatc` run: the output language (Rust unless
/// `type_script` is called), the input directory or file, and the output
/// directory.
pub struct GenerateFlatBuffers {
    output_type: OutputType,
    input_path: Option<String>,
    out_dir: Option<String>,
}

impl GenerateFlatBuffers {
    pub closed spec fn spec_output_type(&self) -> OutputType {
        self.output_type
    }

    pub closed spec fn spec_input_path(&self) -> Option<Seq<char>> {
        match &self.input_path {
            Some(p) => Some(p@),
            None => None,
        }
    }

    pub closed spec fn spec_out_dir(&self) -> Option<Seq<char>> {
        match &self.out_dir {
            Some(p) => Some(p@),
            None => None,
        }
    }

    /// Rust output, and neither an input path nor an output directory.
    pub fn new() -> (r: GenerateFlatBuffers)
        ensures
            r.spec_output_type() == OutputType::Rust,
            r.spec_input_path() is None,
            r.spec_out_dir() is None,
    {
        GenerateFlatBuffers { output_type: OutputType::Rust, input_path: None, out_dir: None }
    }

    /// Asks for TypeScript output.
    pub fn type_script(self) -> (r: GenerateFlatBuffers)
        ensures
            r.spec_output_type() == OutputType::TypeScript,
            r.spec_input_path() == self.spec_input_path(),
            r.spec_out_dir() == self.spec_out_dir(),
    {
        GenerateFlatBuffers { output_type: OutputType::TypeScript, ..self }
    }

    /// A writable directory for the output.
    pub fn out_dir(self, out_dir: &str) -> (r: GenerateFlatBuffers)
        ensures
            r.spec_output_type() == self.spec_output_type(),
            r.spec_input_path() == self.spec_input_path(),
            r.spec_out_dir() == Some(out_dir@),
    {
        GenerateFlatBuffers { out_dir: Some(String::from_str(out_dir)), ..self }
    }

    /// A directory holding `.fbs` files, or one such file.
    pub fn in_path(self, in_path: &str) -> (r: GenerateFlatBuffers)
        ensures
            r.spec_output_type() == self.spec_output_type(),
            r.spec_input_path() == Some(in_path@),
            r.spec_out_dir() == self.spec_out_dir(),
    {
        GenerateFlatBuffers { input_path: Some(String::from_str(in_path)), ..self }
    }

    /// The option of `flatc` that selects the output language.
    pub fn output_flag(&self) -> (r: &'static str)
        ensures
            r@ == match self.spec_output_type() {
                OutputType::Rust => "--rust"@,
                OutputType::TypeScript => "--ts"@,
            },
    {
        match self.output_type {
            OutputType::Rust => "--rust",
            OutputType::TypeScript => "--ts",
        }
    }

    /// Where the `.fbs` files are looked for: the input path, or `./src`.
    pub fn input_path_or_default(&self) -> (r: String)
        ensures
            r@ == match self.spec_input_path() {
                Some(p) => p,
                None => "./src"@,
            },
    {
        match &self.input_path {
            Some(p) => p.clone(),
            None => String::from_str("./src"),
        }
    }

    /// The output directory, if one was given.
    pub fn out_dir_setting(&self) -> (r: Option<String>)
        ensures
            match (r, self.spec_out_dir()) {
                (Some(a), Some(b)) => a@ == b,
                (None, None) => true,
                _ => false,
            },
    {
        match &self.out_dir {
            Some(p) => Some(p.clone()),
            None => None,
        }
    }
}

/// The arguments of `flatc` that compile `fbs_path` into `out_dir`.
pub fn flatc_args(output_flag: &str, out_dir: &str, fbs_path: &str) -> (r: Vec<String>)
    ensures
        r@.len() == 6,
        r@[0]@ == output_flag@,
        r@[1]@ == "-o"@,
        r@[2]@ == out_dir@,
        r@[3]@ == fbs_path@,
        r@[4]@ == "--gen-object-api"@,
        r@[5]@ == "--gen-name-strings"@,
{
    let mut args: Vec<String> = Vec::new();
    args.push(String::from_str(output_flag));
    args.push(String::from_str("-o"));
    args.push(String::from_str(out_dir));
    args.push(String::from_str(fbs_path));
    args.push(String::from_str("--gen-object-api"));
    args.push(String::from_str("--gen-name-strings"));
    args
}

} // verus!
