use vstd::prelude::*;
use crate::ast::Node;
use crate::next_dynamic::{
    display_of, fold, initial_state, next_dynamic, opt_view, rel_filename_spec, Diagnostic, FileName,
};
use crate::ranges::{
    immutable_visit_as_folder, ranges_of, resolve_spans, spans_covered, spans_of, Fold, RangeCollector,
};
use crate::source_index::{Range, SourceIndex};

verus! {

/// The options of one transformation.
#[derive(Debug)]
pub struct TransformOptions {
    /// The path of the file; empty where the source came from no file.
    pub filename: String,
    /// Turns off the static-generation pass, which runs elsewhere.
    pub disable_next_ssg: bool,
    /// The root that module names are made relative to.
    pub pages_dir: Option<String>,
}

/// What one transformation gives back: the rewritten tree, for the printer,
/// the ranges of the tree as it was read, and the diagnostics of the
/// rewrite.
#[derive(Debug)]
pub struct TransformOutputWithRanges {
    pub program: Node,
    pub ranges: Vec<Range>,
    pub diagnostics: Vec<Diagnostic>,
}

/// Why a transformation was refused.
#[derive(Clone, Copy, Debug, PartialEq, Eq, Structural)]
pub enum TransformError {
    /// A real span of the tree ends before it starts, or does not lie in the
    /// source file.
    SpanOutsideFile,
}

/// The path of the file named in the options, if it names one.
pub open spec fn file_path_of(filename: Seq<char>) -> Option<Seq<char>> {
    if filename.len() == 0 {
        None
    } else {
        Some(filename)
    }
}

/// The file named in the options; an empty name stands for source text that
/// came from no file.
pub fn file_name_of(filename: &String) -> (r: FileName)
    ensures
        r.path_view() == file_path_of(filename@),
{
    if filename.as_str().is_empty() {
        FileName::Anon
    } else {
        FileName::Real(filename.clone())
    }
}

fn clone_opt(o: &Option<String>) -> (r: Option<String>)
    ensures
        opt_view(r) == opt_view(*o),
{
    match o {
        Some(s) => Some(s.clone()),
        None => None,
    }
}

/// Collects the ranges of the tree as it was read, then runs the
/// dynamic-import pass over it.
pub fn my_transform(program: Node, idx: &SourceIndex, options: &TransformOptions) -> (r: Result<
    TransformOutputWithRanges,
    TransformError,
>)
    requires
        idx.wf(),
    ensures
        r is Err <==> !spans_covered(program@, *idx),
        r matches Ok(out) ==> ({
            let file = file_path_of(options.filename@);
            let (st, p) = fold(
                initial_state(),
                program@,
                display_of(file),
                rel_filename_spec(opt_view(options.pages_dir), file),
            );
            &&& out.ranges@ == ranges_of(program@, *idx)
            &&& out.program@ == p
            &&& out.diagnostics@ == st.diagnostics
        }),
{
    let ghost input = program@;
    let mut collector = immutable_visit_as_folder(RangeCollector::new());
    let program = collector.fold_node(program);
    assert(collector.0.spans@ =~= spans_of(input));
    let ranges = match resolve_spans(&collector.0.spans, idx) {
        Some(ranges) => ranges,
        None => {
            return Err(TransformError::SpanOutsideFile);
        },
    };
    let mut patcher = next_dynamic(file_name_of(&options.filename), clone_opt(&options.pages_dir));
    let program = patcher.fold_node(program);
    Ok(TransformOutputWithRanges { program, ranges, diagnostics: patcher.diagnostics })
}

} // verus!
