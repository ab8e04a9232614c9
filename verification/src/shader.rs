//! Compiling a node's HLSL kernel to SPIR-V words.
use vstd::prelude::*;
use vstd::string::StringExecFns;
use crate::errors::{ComputeGraphError, GraphError};
use crate::format::le_word;
use crate::compiler::{free_of_nul, run_compiler, CompileRequest, CompilerRun};
use crate::names::chars_of;

verus! {

/// `words` are the little-endian 32-bit words of `bytes`.
pub open spec fn is_words_of(bytes: Seq<u8>, words: Seq<u32>) -> bool {
    &&& bytes.len() == 4 * words.len()
    &&& forall|i: int|
        0 <= i < words.len() ==> #[trigger] words[i] == le_word(
            bytes[4 * i],
            bytes[4 * i + 1],
            bytes[4 * i + 2],
            bytes[4 * i + 3],
        )
}

/// Splits compiled SPIR-V into little-endian 32-bit words. Output whose
/// length is not a multiple of four is rejected.
pub fn spirv_words(shader: &String, bytes: &[u8]) -> (r: Result<Vec<u32>, ComputeGraphError>)
    ensures
        match r {
            Ok(words) => bytes@.len() % 4 == 0 && is_words_of(bytes@, words@),
            Err(e) => bytes@.len() % 4 != 0 && e@ == GraphError::<Seq<char>>::InvalidSpirv {
                shader: shader@,
            },
        },
{
    if bytes.len() % 4 != 0 {
        return Err(GraphError::InvalidSpirv { shader: shader.clone() });
    }
    let n = bytes.len() / 4;
    let mut words: Vec<u32> = Vec::new();
    let mut i: usize = 0;
    while i < n
        invariant
            n == bytes.len() / 4,
            bytes.len() % 4 == 0,
            i <= n,
            words@.len() == i,
            forall|j: int|
                0 <= j < i ==> #[trigger] words@[j] == le_word(
                    bytes@[4 * j],
                    bytes@[4 * j + 1],
                    bytes@[4 * j + 2],
                    bytes@[4 * j + 3],
                ),
        decreases n - i,
    {
        let b0 = bytes[4 * i] as u32;
        let b1 = bytes[4 * i + 1] as u32;
        let b2 = bytes[4 * i + 2] as u32;
        let b3 = bytes[4 * i + 3] as u32;
        words.push(b0 + 256 * b1 + 65536 * b2 + 16777216 * b3);
        i = i + 1;
    }
    Ok(words)
}

/// The compiler option that adds `dir` to the header search path.
pub open spec fn search_path_option(dir: Seq<char>) -> Seq<char> {
    "-I"@ + dir
}

/// `r` asks for the kernel `kernel` of the shader `source`, read from
/// `shader_path`, compiled for compute shader model 6.0 as SPIR-V, with
/// `header_dir` on the header search path.
pub open spec fn request_matches(
    r: CompileRequest,
    shader_path: Seq<char>,
    source: Seq<char>,
    kernel: Seq<char>,
    header_dir: Seq<char>,
) -> bool {
    &&& r.source_name@ == shader_path
    &&& r.source@ == source
    &&& r.entry_point@ == kernel
    &&& r.profile@ == "cs_6_0"@
    &&& r.arguments@.len() == 2
    &&& r.arguments@[0]@ == "-spirv"@
    &&& r.arguments@[1]@ == search_path_option(header_dir)
}

/// Why a compile request for node `node` cannot be made: a NUL character in
/// the kernel name, or in the shader path or header directory.
pub open spec fn request_error(
    node: Seq<char>,
    shader_path: Seq<char>,
    kernel: Seq<char>,
    header_dir: Seq<char>,
) -> Option<GraphError<Seq<char>>> {
    if !free_of_nul(kernel) {
        Some(GraphError::InvalidKernelName { node })
    } else if !free_of_nul(shader_path) || !free_of_nul(header_dir) {
        Some(GraphError::InvalidShaderPath { shader: shader_path })
    } else {
        None
    }
}

/// Whether the text holds a NUL character.
fn holds_nul(s: &str) -> (r: bool)
    ensures
        r == !free_of_nul(s@),
{
    let chars = chars_of(s);
    let mut i: usize = 0;
    while i < chars.len()
        invariant
            chars@ == s@,
            i <= chars@.len(),
            forall|j: int| 0 <= j < i ==> chars@[j] != '\0',
        decreases chars@.len() - i,
    {
        if chars[i] == '\0' {
            proof {
                assert(s@[i as int] == '\0');
            }
            return true;
        }
        i = i + 1;
    }
    false
}

/// The request to compile the kernel `kernel` of node `node` from the shader
/// `source`, read from `shader_path`, with `header_dir` on the header search
/// path.
pub fn compile_request(
    node: &String,
    shader_path: &String,
    source: &str,
    kernel: &str,
    header_dir: &str,
) -> (r: Result<CompileRequest, ComputeGraphError>)
    ensures
        match r {
            Ok(req) => {
                &&& request_error(node@, shader_path@, kernel@, header_dir@) is None
                &&& request_matches(req, shader_path@, source@, kernel@, header_dir@)
                &&& req.nul_free()
            },
            Err(e) => request_error(node@, shader_path@, kernel@, header_dir@) == Some(e@),
        },
{
    if holds_nul(kernel) {
        return Err(GraphError::InvalidKernelName { node: node.clone() });
    }
    if holds_nul(shader_path.as_str()) || holds_nul(header_dir) {
        return Err(GraphError::InvalidShaderPath { shader: shader_path.clone() });
    }
    let mut option = String::from_str("-I");
    option.append(header_dir);
    let mut arguments: Vec<String> = Vec::new();
    arguments.push(String::from_str("-spirv"));
    arguments.push(option);
    let req = CompileRequest {
        source_name: shader_path.clone(),
        source: source.to_owned(),
        entry_point: kernel.to_owned(),
        profile: String::from_str("cs_6_0"),
        arguments,
    };
    proof {
        reveal_strlit("-I");
        reveal_strlit("-spirv");
        reveal_strlit("cs_6_0");
        let o = req.arguments@[1]@;
        assert(o == search_path_option(header_dir@));
        assert forall|j: int| 0 <= j < o.len() implies o[j] != '\0' by {
            if j >= 2 {
                assert(o[j] == header_dir@[j - 2]);
            }
        }
        assert(free_of_nul(o));
        assert(free_of_nul(req.arguments@[0]@));
        assert(free_of_nul(req.profile@));
    }
    Ok(req)
}

/// Makes the request to compile the kernel `kernel` of node `node` and runs
/// the compiler on it. The run holds whatever the compiler returned; see
/// `kernel_words`.
pub fn compile_kernel(
    node: &String,
    shader_path: &String,
    source: &str,
    kernel: &str,
    header_dir: &str,
) -> (r: Result<CompilerRun, ComputeGraphError>)
    ensures
        match r {
            Ok(run) => {
                &&& request_error(node@, shader_path@, kernel@, header_dir@) is None
                &&& request_matches(run.given(), shader_path@, source@, kernel@, header_dir@)
            },
            Err(e) => request_error(node@, shader_path@, kernel@, header_dir@) == Some(e@),
        },
{
    match compile_request(node, shader_path, source, kernel, header_dir) {
        Err(e) => Err(e),
        Ok(request) => Ok(run_compiler(request)),
    }
}

/// The SPIR-V words of a compiler run: the compiler's error as a shader
/// compilation error, or its output split into little-endian words.
pub fn kernel_words(run: &CompilerRun) -> (r: Result<Vec<u32>, ComputeGraphError>)
    ensures
        match run.returned() {
            Err(message) => match r {
                Err(e) => e@ == GraphError::<Seq<char>>::ShaderCompilation {
                    shader: run.given().source_name@,
                    message: message@,
                },
                Ok(_) => false,
            },
            Ok(bytes) => match r {
                Ok(words) => bytes@.len() % 4 == 0 && is_words_of(bytes@, words@),
                Err(e) => bytes@.len() % 4 != 0 && e@ == GraphError::<Seq<char>>::InvalidSpirv {
                    shader: run.given().source_name@,
                },
            },
        },
{
    let request = run.request();
    match run.outcome() {
        Err(message) => Err(
            GraphError::ShaderCompilation { shader: request.source_name.clone(), message: message.clone() },
        ),
        Ok(bytes) => spirv_words(&request.source_name, bytes.as_slice()),
    }
}

} // verus!
