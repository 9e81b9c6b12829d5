//! Entries of the durable tables: functions, locations and resolved samples.

use vstd::prelude::*;

verus! {

/// Offset of a function in a profile's function table.
pub type FunctionIndex = usize;

/// Offset of a location in a profile's location table.
pub type LocationIndex = usize;

/// How a callable unit is executed.
#[derive(Clone, Copy, Debug, PartialEq, Eq, Structural)]
pub enum FunctionImplementation {
    Interpreted,
    Native,
}

/// Description of a callable unit.
#[derive(Debug, PartialEq, Eq)]
pub struct Function {
    pub implementation: FunctionImplementation,
    pub name: Option<String>,
    pub filename: Option<String>,
    pub start_line: Option<i32>,
    pub start_address: Option<usize>,
}

/// What a `Function` says, with its strings as sequences of characters.
pub ghost struct FunctionView {
    pub implementation: FunctionImplementation,
    pub name: Option<Seq<char>>,
    pub filename: Option<Seq<char>>,
    pub start_line: Option<i32>,
    pub start_address: Option<usize>,
}

/// The characters of an optional string.
pub open spec fn text_view(text: Option<String>) -> Option<Seq<char>> {
    match text {
        Some(s) => Some(s@),
        None => None,
    }
}

impl View for Function {
    type V = FunctionView;

    open spec fn view(&self) -> FunctionView {
        FunctionView {
            implementation: self.implementation,
            name: text_view(self.name),
            filename: text_view(self.filename),
            start_line: self.start_line,
            start_address: self.start_address,
        }
    }
}

/// Whether two optional strings hold the same characters.
fn same_text(a: &Option<String>, b: &Option<String>) -> (same: bool)
    ensures
        same == (text_view(*a) == text_view(*b)),
{
    match (a, b) {
        (Some(x), Some(y)) => *x == *y,
        (None, None) => true,
        _ => false,
    }
}

/// A copy of an optional string.
fn copy_text(text: &Option<String>) -> (copy: Option<String>)
    ensures
        copy == *text,
{
    match text {
        Some(s) => Some(s.clone()),
        None => None,
    }
}

/// The views of a table of functions.
pub open spec fn function_views(functions: Seq<Function>) -> Seq<FunctionView> {
    Seq::new(functions.len(), |i: int| functions[i]@)
}

impl Clone for Function {
    fn clone(&self) -> (copy: Self)
        ensures
            copy == *self,
    {
        Function {
            implementation: self.implementation,
            name: copy_text(&self.name),
            filename: copy_text(&self.filename),
            start_line: self.start_line,
            start_address: self.start_address,
        }
    }
}

/// The function that a frame of interpreted code is described by.
pub open spec fn interpreted_function(
    full_label: Option<String>,
    path: Option<String>,
    first_line: Option<i32>,
) -> FunctionView {
    FunctionView {
        implementation: FunctionImplementation::Interpreted,
        name: text_view(full_label),
        filename: text_view(path),
        start_line: first_line,
        start_address: None,
    }
}

impl Function {
    /// Builds the description of a frame of interpreted code from what the
    /// runtime reports of it: its qualified name, the path of its source
    /// file and the line on which it starts, each of them optional. There is
    /// no description where the line does not fit in an `i32`.
    pub fn from_frame(
        full_label: Option<String>,
        path: Option<String>,
        first_line: Option<i64>,
    ) -> (function: Option<Function>)
        ensures
            function is Some <==> (first_line matches Some(line) ==> i32::MIN <= line <= i32::MAX),
            function matches Some(f) ==> f@ == interpreted_function(
                full_label,
                path,
                match first_line {
                    Some(line) => Some(line as i32),
                    None => None,
                },
            ),
    {
        let start_line = match first_line {
            Some(line) => {
                if line < i32::MIN as i64 || line > i32::MAX as i64 {
                    return None;
                }
                Some(line as i32)
            },
            None => None,
        };
        Some(
            Function {
                implementation: FunctionImplementation::Interpreted,
                name: full_label,
                filename: path,
                start_line,
                start_address: None,
            },
        )
    }

    /// Whether two functions are the same entity: all fields are equal.
    pub fn same_as(&self, other: &Function) -> (same: bool)
        ensures
            same == (self@ == other@),
    {
        let same_implementation = match (self.implementation, other.implementation) {
            (FunctionImplementation::Interpreted, FunctionImplementation::Interpreted) => true,
            (FunctionImplementation::Native, FunctionImplementation::Native) => true,
            _ => false,
        };
        same_implementation && same_text(&self.name, &other.name) && same_text(
            &self.filename,
            &other.filename,
        ) && self.start_line == other.start_line && self.start_address == other.start_address
    }
}

/// A place in code where a frame was captured.
#[derive(Clone, Copy, Debug, PartialEq, Eq, Structural)]
pub struct Location {
    pub function_index: FunctionIndex,
    pub line: i32,
    pub address: Option<usize>,
}

/// A resolved sample: its stack refers to the location table, innermost
/// frame first.
#[derive(Debug, PartialEq, Eq)]
pub struct Sample {
    pub timestamp_ns: u64,
    pub stack: Vec<LocationIndex>,
    pub thread_id: Option<u64>,
}

/// A resolved sample with its stack as a sequence.
pub ghost struct SampleView {
    pub timestamp_ns: u64,
    pub stack: Seq<LocationIndex>,
    pub thread_id: Option<u64>,
}

impl View for Sample {
    type V = SampleView;

    open spec fn view(&self) -> SampleView {
        SampleView { timestamp_ns: self.timestamp_ns, stack: self.stack@, thread_id: self.thread_id }
    }
}

/// The views of a list of resolved samples.
pub open spec fn sample_views(samples: Seq<Sample>) -> Seq<SampleView> {
    Seq::new(samples.len(), |i: int| samples[i]@)
}

} // verus!
