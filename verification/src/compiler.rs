//! The shader compiler: what is handed to it, and the record of one run.
use vstd::prelude::*;

verus! {

/// Everything handed to the HLSL compiler for one compilation.
#[derive(Debug)]
pub struct CompileRequest {
    /// The name the compiler reports the source under.
    pub source_name: String,
    /// The HLSL text.
    pub source: String,
    /// The kernel to compile.
    pub entry_point: String,
    /// The target profile.
    pub profile: String,
    /// Further compiler options.
    pub arguments: Vec<String>,
}

/// The text holds no NUL character.
pub open spec fn free_of_nul(s: Seq<char>) -> bool {
    !s.contains('\0')
}

impl CompileRequest {
    /// No text that the compiler turns into a C string holds a NUL character.
    pub open spec fn nul_free(&self) -> bool {
        &&& free_of_nul(self.source_name@)
        &&& free_of_nul(self.entry_point@)
        &&& free_of_nul(self.profile@)
        &&& forall|i: int| 0 <= i < self.arguments@.len() ==> free_of_nul(#[trigger] self.arguments@[i]@)
    }
}

/// One run of the compiler: the request it was given and what it returned,
/// the SPIR-V bytes or the text of its error. Only `run_compiler` makes one.
#[derive(Debug)]
pub struct CompilerRun {
    request: CompileRequest,
    outcome: Result<Vec<u8>, String>,
}

impl CompilerRun {
    /// The request the compiler was given.
    pub closed spec fn given(&self) -> CompileRequest {
        self.request
    }

    /// What the compiler returned.
    pub closed spec fn returned(&self) -> Result<Vec<u8>, String> {
        self.outcome
    }

    /// The request the compiler was given.
    pub fn request(&self) -> (r: &CompileRequest)
        ensures
            *r == self.given(),
    {
        &self.request
    }

    /// What the compiler returned.
    pub fn outcome(&self) -> (r: &Result<Vec<u8>, String>)
        ensures
            *r == self.returned(),
    {
        &self.outcome
    }
}

/// Calls `hassle_rs::compile_hlsl` with the request's source name, text,
/// entry point, profile and options, and no defines, and keeps the request
/// beside the outcome. The compiler library is loaded from the system and
/// header files are read from disk, so nothing is said of the outcome.
/// `hassle_rs` turns the source name, entry point, profile and options into
/// wide C strings and panics on an interior NUL, hence the precondition; its
/// other unwraps follow calls into the compiler library that reported success.
#[verifier::external_body]
pub(crate) fn run_compiler(request: CompileRequest) -> (run: CompilerRun)
    requires
        request.nul_free(),
    ensures
        run.given() == request,
{
    let arguments: Vec<&str> = request.arguments.iter().map(|a| a.as_str()).collect();
    let outcome = match hassle_rs::compile_hlsl(
        &request.source_name,
        &request.source,
        &request.entry_point,
        &request.profile,
        &arguments,
        &[],
    ) {
        Ok(bytes) => Ok(bytes),
        Err(error) => Err(error.to_string()),
    };
    CompilerRun { request, outcome }
}

} // verus!
