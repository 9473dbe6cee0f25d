//! Shader programs and shader objects, identified by their GPU handles.
use vstd::prelude::*;

verus! {

/// Errors related to shaders.
#[derive(Debug)]
pub enum ShaderError {
    /// A shader could not compile. Holds the driver's log.
    ShaderCompilationFailed(String),
    /// A program could not link. Holds the driver's log.
    ProgramLinkingFailed(String),
    /// A uniform was not found in the program. Holds the uniform's name.
    UniformNotFound(String),
}

/// GPU handle of a linked shader program.
pub type ProgramID = u32;

/// A linked shader program, identified by its GPU handle.
#[derive(Copy, Clone, Debug, PartialEq, Eq, Structural)]
pub struct Program {
    id: ProgramID,
}

impl View for Program {
    type V = ProgramID;

    closed spec fn view(&self) -> ProgramID {
        self.id
    }
}

impl Program {
    /// Wraps the handle of a program that has been linked.
    pub fn from_id(id: ProgramID) -> (r: Program)
        ensures
            r@ == id,
    {
        Program { id }
    }

    /// The program linked as `id`, given the link status that the driver
    /// reported for it: a status of 0 is a failure, with the driver's log.
    pub fn from_link_status(id: ProgramID, status: i32, log: String) -> (r: Result<Program, ShaderError>)
        ensures
            status == 0 ==> r == Err::<Program, ShaderError>(ShaderError::ProgramLinkingFailed(log)),
            status != 0 ==> (r matches Ok(p) && p@ == id),
    {
        if status == 0 {
            Err(ShaderError::ProgramLinkingFailed(log))
        } else {
            Ok(Program { id })
        }
    }

    /// A uniform location as the driver reported it: -1 stands for a name
    /// that the program does not have; any other value, 0 included, is a
    /// location.
    pub fn uniform_location(raw: i32) -> (r: Option<i32>)
        ensures
            raw == -1 ==> r is None,
            raw != -1 ==> r == Some(raw),
    {
        if raw == -1 {
            None
        } else {
            Some(raw)
        }
    }

    /// The underlying program handle.
    pub fn id(self) -> (r: ProgramID)
        ensures
            r == self@,
    {
        self.id
    }
}

/// Stage of the pipeline that a shader runs in.
#[derive(Debug, Copy, Clone, PartialEq, Eq, Structural)]
pub enum ShaderType {
    Vertex,
    Fragment,
}

/// A compiled shader, identified by its GPU handle.
#[derive(Copy, Clone, Debug, PartialEq, Eq, Structural)]
pub struct Shader {
    id: u32,
}

impl View for Shader {
    type V = u32;

    closed spec fn view(&self) -> u32 {
        self.id
    }
}

impl Shader {
    /// The shader compiled as `id`, given the compile status that the
    /// driver reported for it: only a status of 1 is a success; otherwise
    /// the compilation failed, with the driver's log.
    pub fn from_compile_status(id: u32, status: i32, log: String) -> (r: Result<Shader, ShaderError>)
        ensures
            status == 1 ==> (r matches Ok(s) && s@ == id),
            status != 1 ==> r == Err::<Shader, ShaderError>(ShaderError::ShaderCompilationFailed(log)),
    {
        if status == 1 {
            Ok(Shader { id })
        } else {
            Err(ShaderError::ShaderCompilationFailed(log))
        }
    }

    /// The shader's GPU handle.
    pub fn id(self) -> (r: u32)
        ensures
            r == self@,
    {
        self.id
    }
}

/// A buffer of `length` spaces (byte 32), for the driver to write a log
/// into.
pub fn log_buffer(length: usize) -> (r: Vec<u8>)
    ensures
        r@ == Seq::new(length as nat, |i: int| 32u8),
{
    let mut buffer: Vec<u8> = Vec::with_capacity(length);
    let mut i: usize = 0;
    while i < length
        invariant
            0 <= i <= length,
            buffer@ == Seq::new(i as nat, |j: int| 32u8),
        decreases length - i,
    {
        buffer.push(32u8);
        i = i + 1;
        assert(buffer@ =~= Seq::new(i as nat, |j: int| 32u8));
    }
    buffer
}

} // verus!
