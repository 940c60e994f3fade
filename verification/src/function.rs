use vstd::prelude::*;
use crate::expression::Expression;
use crate::metadata::{FunctionInfo, SourceMetadata};
use crate::strutil::{ends_with, sp_ends_with};

verus! {

/// The code region a lowered function belongs to. The tag governs which
/// runtime hooks and storage rules apply while its body is emitted.
#[derive(Clone, Copy, Debug, PartialEq, Eq, Structural)]
pub enum CodeType {
    Deploy,
    Runtime,
}

pub open spec fn deploy_suffix() -> Seq<char> {
    "_deploy"@
}

pub open spec fn runtime_suffix() -> Seq<char> {
    "_runtime"@
}

pub open spec fn common_suffix() -> Seq<char> {
    "_common"@
}

/// Whether a label ends in one of the three recognized code-generation
/// suffixes.
pub open spec fn sp_has_recognized_suffix(l: Seq<char>) -> bool {
    sp_ends_with(l, common_suffix()) || sp_ends_with(l, runtime_suffix()) || sp_ends_with(
        l,
        deploy_suffix(),
    )
}

/// The metadata label of a raw function label: the label with at most one
/// recognized suffix removed. When several suffixes would match, the
/// common tag wins over the runtime tag, which wins over the deploy tag.
pub open spec fn sp_strip_label(l: Seq<char>) -> Seq<char> {
    if sp_ends_with(l, common_suffix()) {
        l.subrange(0, l.len() - common_suffix().len())
    } else if sp_ends_with(l, runtime_suffix()) {
        l.subrange(0, l.len() - runtime_suffix().len())
    } else if sp_ends_with(l, deploy_suffix()) {
        l.subrange(0, l.len() - deploy_suffix().len())
    } else {
        l
    }
}

/// Strips at most one recognized code-generation suffix from a label,
/// yielding the label to correlate against the source metadata.
pub fn strip_label_suffix(label: &str) -> (r: String)
    ensures
        r@ == sp_strip_label(label@),
{
    proof {
        reveal_strlit("_common");
        reveal_strlit("_runtime");
        reveal_strlit("_deploy");
    }
    let len = label.unicode_len();
    if ends_with(label, "_common") {
        label.substring_char(0, len - 7).to_owned()
    } else if ends_with(label, "_runtime") {
        label.substring_char(0, len - 8).to_owned()
    } else if ends_with(label, "_deploy") {
        label.substring_char(0, len - 7).to_owned()
    } else {
        label.to_owned()
    }
}

/// Stripping at most one recognized suffix is idempotent: once a label
/// carries no recognized suffix any more, stripping it again changes
/// nothing. A label whose text stacks several recognized suffixes loses
/// only the last one per strip, so the law is stated for labels whose
/// stripped form carries none.
pub proof fn lemma_strip_idempotent(l: Seq<char>)
    requires
        !sp_has_recognized_suffix(sp_strip_label(l)),
    ensures
        sp_strip_label(sp_strip_label(l)) == sp_strip_label(l),
{
}

/// The first metadata entry whose IR identifier equals the metadata
/// label, if any.
pub open spec fn sp_correlate(
    entries: Seq<(String, FunctionInfo)>,
    label: Seq<char>,
    i: int,
) -> Option<int>
    decreases entries.len() - i when 0 <= i <= entries.len()
{
    if i >= entries.len() {
        None
    } else if entries[i].1.ir_identifier@ == label {
        Some(i)
    } else {
        sp_correlate(entries, label, i + 1)
    }
}

/// Looks the metadata label up against every entry's IR identifier and
/// returns the first match. Functions without front-end metadata are
/// legal, so no match is no error.
pub fn correlate(metadata: &SourceMetadata, label: &str) -> (r: Option<usize>)
    ensures
        match r {
            Some(i) => sp_correlate(metadata.function_info@, label@, 0) == Some(i as int) && i
                < metadata.function_info@.len(),
            None => sp_correlate(metadata.function_info@, label@, 0) is None,
        },
{
    let mut i: usize = 0;
    while i < metadata.function_info.len()
        invariant
            i <= metadata.function_info@.len(),
            sp_correlate(metadata.function_info@, label@, 0) == sp_correlate(
                metadata.function_info@,
                label@,
                i as int,
            ),
        decreases metadata.function_info@.len() - i,
    {
        if crate::strutil::str_eq(metadata.function_info[i].1.ir_identifier.as_str(), label) {
            return Some(i);
        }
        i += 1;
    }
    None
}

/// A function awaiting emission: its raw label, its correlated source
/// metadata when the front end reported any, and its body.
#[derive(Debug)]
pub struct Function {
    pub label: String,
    pub metadata: Option<FunctionInfo>,
    pub body: Expression,
}

impl Function {
    pub fn new(label: String, metadata: Option<FunctionInfo>, body: Expression) -> (r: Function)
        ensures
            r.label@ == label@,
            r.metadata == metadata,
            r.body == body,
    {
        Function { label, metadata, body }
    }
}

} // verus!
