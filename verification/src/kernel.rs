//! What the host and the kernel agree on: how the kernel learns its capacity,
//! and which buffers it finds under which binding.
//!
//! The capacity of a pipeline is written into the kernel's source text before
//! the kernel is compiled, because the kernel needs it as a constant. The
//! source is a template of the `tera` engine, of which one thing only is
//! used: the placeholder `{{ static_config.max_bodies }}`, which rendering
//! replaces by the number. A template is scanned before the engine sees it,
//! and is turned away unless it holds that placeholder and no other tag of
//! the engine. So the engine is never asked to call a function, to loop or to
//! calculate, and what it answers depends on the template and the capacity
//! alone. The answer itself is the engine's; it goes by the name
//! [`engine_answer`], and the kernel source is stated in terms of it.
//!
//! The kernel declares two binding groups. Group 0 has the configuration at
//! binding 0. Group 1 has the source buffer, read-only, at binding 0 and the
//! destination buffer at binding 1.

use crate::error::PipelineError;
use crate::pipeline::SourceBuffer;
use crate::structures::StaticConfig;
use vstd::prelude::*;
use vstd::string::*;

verus! {

/// Name under which the configuration is known to a template.
pub const CONFIG_KEY: &'static str = "static_config";

/// Name of the capacity within the configuration.
pub const CAPACITY_FIELD: &'static str = "max_bodies";

/// Binding group of the configuration buffer.
pub const CONFIG_GROUP: u32 = 0;

/// Binding group of the two particle buffers.
pub const BODY_GROUP: u32 = 1;

/// How a kernel may use a buffer that is bound to it.
#[derive(Debug, Clone, Copy, PartialEq, Eq, Structural)]
pub enum BindingType {
    /// A small record that every invocation reads.
    Uniform,
    /// An array in device memory.
    Storage { read_only: bool },
}

/// One binding of a binding group's layout.
#[derive(Debug, Clone, Copy, PartialEq, Eq, Structural)]
pub struct BindGroupLayoutEntry {
    pub binding: u32,
    pub ty: BindingType,
}

/// One binding of the particle buffers' group: the buffer found there.
#[derive(Debug, Clone, Copy, PartialEq, Eq, Structural)]
pub struct BindGroupEntry {
    pub binding: u32,
    pub buffer: SourceBuffer,
}

/// The layout of the configuration's binding group.
pub open spec fn config_layout() -> Seq<BindGroupLayoutEntry> {
    seq![BindGroupLayoutEntry { binding: 0, ty: BindingType::Uniform }]
}

/// The layout of the particle buffers' binding group.
pub open spec fn body_layout() -> Seq<BindGroupLayoutEntry> {
    seq![
        BindGroupLayoutEntry { binding: 0, ty: BindingType::Storage { read_only: true } },
        BindGroupLayoutEntry { binding: 1, ty: BindingType::Storage { read_only: false } },
    ]
}

/// The layout of the configuration's binding group.
pub fn config_bindgroup_layout() -> (layout: Vec<BindGroupLayoutEntry>)
    ensures
        layout@ == config_layout(),
{
    let mut layout: Vec<BindGroupLayoutEntry> = Vec::new();
    layout.push(BindGroupLayoutEntry { binding: 0, ty: BindingType::Uniform });
    assert(layout@ =~= config_layout());
    layout
}

/// The layout of the particle buffers' binding group.
pub fn body_bindgroup_layout() -> (layout: Vec<BindGroupLayoutEntry>)
    ensures
        layout@ == body_layout(),
{
    let mut layout: Vec<BindGroupLayoutEntry> = Vec::new();
    layout.push(BindGroupLayoutEntry { binding: 0, ty: BindingType::Storage { read_only: true } });
    layout.push(BindGroupLayoutEntry { binding: 1, ty: BindingType::Storage { read_only: false } });
    assert(layout@ =~= body_layout());
    layout
}

impl SourceBuffer {
    /// The particle buffers as a dispatch with this source finds them: the
    /// source at the read-only binding, the other buffer at the writable
    /// one.
    pub open spec fn spec_bind_group(self) -> Seq<BindGroupEntry> {
        seq![
            BindGroupEntry { binding: 0, buffer: self },
            BindGroupEntry { binding: 1, buffer: self.other() },
        ]
    }

    /// The particle buffers as a dispatch with this source finds them: the
    /// source at the read-only binding, the other buffer at the writable
    /// one.
    pub fn bind_group(self) -> (entries: Vec<BindGroupEntry>)
        ensures
            entries@ == self.spec_bind_group(),
    {
        let mut entries: Vec<BindGroupEntry> = Vec::new();
        entries.push(BindGroupEntry { binding: 0, buffer: self });
        entries.push(BindGroupEntry { binding: 1, buffer: self.other() });
        assert(entries@ =~= self.spec_bind_group());
        entries
    }
}

/// The error of `tera`. Nothing is known of what it holds.
#[verifier::external_type_specification]
#[verifier::external_body]
pub struct ExTeraError(tera::Error);

/// What `Tera::one_off` of `tera` answers for a template that holds no tag
/// but placeholders of the one field `field` of the record `key`, rendered
/// with `value` for that field and without escaping: the rendered text, or
/// nothing where the engine reports an error.
pub uninterp spec fn engine_answer(
    template: Seq<char>,
    key: Seq<char>,
    field: Seq<char>,
    value: u32,
) -> Option<Seq<char>>;

/// `Tera::one_off` of `tera`, called with the template, a context that holds
/// under `key` a record with the one field `field` of the value `value`, and
/// escaping switched off.
///
/// The two names must be identifiers, and the template must hold no tag of
/// the engine but placeholders of that field. The engine then only copies
/// text, looks the field up and writes out its number, so it neither panics
/// nor runs on, and its answer depends on the four arguments alone. The
/// contract gives that answer its name and claims nothing else.
#[verifier::external_body]
fn render_one_off(template: &str, key: &str, field: &str, value: u32) -> (r: Result<
    String,
    tera::Error,
>)
    requires
        is_identifier(key.spec_bytes()),
        is_identifier(field.spec_bytes()),
        only_placeholders_from(template.spec_bytes(), path_of(key, field), 0),
    ensures
        r is Ok ==> engine_answer(template@, key@, field@, value) == Some(r->Ok_0@),
        r is Err ==> engine_answer(template@, key@, field@, value) is None,
{
    let mut record = std::collections::BTreeMap::new();
    record.insert(field, value);
    let mut context = tera::Context::new();
    context.insert(key, &record);
    tera::Tera::one_off(template, &context, false)
}

/// The words of an error of `tera`, as its `Debug` form gives them. Nothing
/// is claimed of them.
#[verifier::external_body]
fn describe(error: &tera::Error) -> String {
    format!("{:?}", error)
}

/// Whether `pattern` lies in `text` from position `at` on.
pub open spec fn occurs_at(text: Seq<u8>, pattern: Seq<u8>, at: int) -> bool {
    &&& 0 <= at
    &&& at + pattern.len() <= text.len()
    &&& text.subrange(at, at + pattern.len()) == pattern
}

/// Whether `pattern` lies somewhere in `text`.
pub open spec fn occurs(text: Seq<u8>, pattern: Seq<u8>) -> bool {
    exists|at: int| occurs_at(text, pattern, at)
}

/// The two braces that open a placeholder.
pub open spec fn placeholder_open() -> Seq<u8> {
    seq![0x7bu8, 0x7bu8]
}

/// The two braces that close a placeholder.
pub open spec fn placeholder_close() -> Seq<u8> {
    seq![0x7du8, 0x7du8]
}

/// The bytes by which a template names a field of a record: the record's
/// name, a dot, and the field's name.
pub open spec fn path_of(key: &str, field: &str) -> Seq<u8> {
    key.spec_bytes() + seq![0x2eu8] + field.spec_bytes()
}

/// The bytes by which a template names the capacity.
pub open spec fn capacity_path() -> Seq<u8> {
    path_of(CONFIG_KEY, CAPACITY_FIELD)
}

/// Whether a byte may stand in an identifier: a letter, a digit or an
/// underscore.
pub open spec fn is_name_byte(byte: u8) -> bool {
    ||| byte == 0x5f
    ||| 0x41 <= byte <= 0x5a
    ||| 0x61 <= byte <= 0x7a
    ||| 0x30 <= byte <= 0x39
}

/// Whether a name is an identifier to the engine: letters, digits and
/// underscores, of which the first is no digit.
pub open spec fn is_identifier(name: Seq<u8>) -> bool {
    &&& name.len() > 0
    &&& !(0x30 <= name[0] <= 0x39)
    &&& forall|i: int| 0 <= i < name.len() ==> is_name_byte(#[trigger] name[i])
}

/// The names by which the capacity is known to a template are identifiers.
pub proof fn lemma_capacity_names_are_identifiers()
    ensures
        is_identifier(CONFIG_KEY.spec_bytes()),
        is_identifier(CAPACITY_FIELD.spec_bytes()),
{
    reveal_strlit("static_config");
    reveal_strlit("max_bodies");
    is_ascii_spec_bytes(CONFIG_KEY);
    is_ascii_spec_bytes(CAPACITY_FIELD);
}

/// Whether a byte is one that the engine skips inside a tag: a space, a tab,
/// a line feed or a carriage return.
pub open spec fn is_blank(byte: u8) -> bool {
    byte == 0x20 || byte == 0x09 || byte == 0x0a || byte == 0x0d
}

/// Where the run of blanks ends that starts at `at`.
pub open spec fn after_blanks(text: Seq<u8>, at: int) -> int
    decreases text.len() - at,
{
    if 0 <= at < text.len() && is_blank(text[at]) {
        after_blanks(text, at + 1)
    } else {
        at
    }
}

/// Whether a tag of the engine opens at `at`: a brace followed by a brace, a
/// percent sign or a hash.
pub open spec fn opens_tag(text: Seq<u8>, at: int) -> bool {
    &&& 0 <= at
    &&& at + 1 < text.len()
    &&& text[at] == 0x7b
    &&& (text[at + 1] == 0x7b || text[at + 1] == 0x25 || text[at + 1] == 0x23)
}

/// Where the placeholder of `path` ends that starts at `at`, if one starts
/// there: two opening braces, blanks if any, the path, blanks if any, two
/// closing braces.
pub open spec fn placeholder_end(text: Seq<u8>, path: Seq<u8>, at: int) -> Option<int> {
    let name = after_blanks(text, at + 2);
    let close = after_blanks(text, name + path.len());
    if occurs_at(text, placeholder_open(), at) && occurs_at(text, path, name) && occurs_at(
        text,
        placeholder_close(),
        close,
    ) {
        Some(close + 2)
    } else {
        None
    }
}

/// Whether every tag of the engine that opens at `at` or behind it is a
/// placeholder of `path`.
pub open spec fn only_placeholders_from(text: Seq<u8>, path: Seq<u8>, at: int) -> bool
    decreases text.len() - at,
{
    if at < 0 || at >= text.len() {
        true
    } else if opens_tag(text, at) {
        match placeholder_end(text, path, at) {
            Some(end) => end > at && only_placeholders_from(text, path, end),
            None => false,
        }
    } else {
        only_placeholders_from(text, path, at + 1)
    }
}

/// Whether a placeholder of `path` starts somewhere in `text`.
pub open spec fn has_placeholder(text: Seq<u8>, path: Seq<u8>) -> bool {
    exists|at: int| placeholder_end(text, path, at) is Some
}

/// Whether a template holds a placeholder of the capacity.
pub open spec fn has_capacity_placeholder(template: &str) -> bool {
    has_placeholder(template.spec_bytes(), capacity_path())
}

/// Whether a template is one that is handed to the engine: it holds a
/// placeholder of the capacity, and no other tag of the engine.
pub open spec fn accepted(template: &str) -> bool {
    &&& only_placeholders_from(template.spec_bytes(), capacity_path(), 0)
    &&& has_capacity_placeholder(template)
}

/// Whether a text is free of placeholders: nowhere in it do two opening
/// braces follow each other.
pub open spec fn free_of_placeholders(text: Seq<char>) -> bool {
    !occurs(vstd::utf8::encode_utf8(text), placeholder_open())
}

/// The kernel source that a template gives for a capacity, if it gives one:
/// the template is accepted, the engine answers with a text, and that text is
/// free of placeholders.
pub open spec fn kernel_text(template: &str, static_config: StaticConfig) -> Option<Seq<char>> {
    if !accepted(template) {
        None
    } else {
        match engine_answer(template@, CONFIG_KEY@, CAPACITY_FIELD@, static_config.max_bodies) {
            Some(text) => if free_of_placeholders(text) {
                Some(text)
            } else {
                None
            },
            None => None,
        }
    }
}

/// Whether `pattern` lies in `text` from position `at` on.
fn lies_at(text: &[u8], pattern: &[u8], at: usize) -> (r: bool)
    ensures
        r == occurs_at(text@, pattern@, at as int),
        text@.len() <= usize::MAX,
{
    if at > text.len() || pattern.len() > text.len() - at {
        return false;
    }
    let mut k: usize = 0;
    while k < pattern.len()
        invariant
            k <= pattern@.len(),
            at + pattern@.len() <= text@.len() <= usize::MAX,
            text@.subrange(at as int, at + k) == pattern@.subrange(0, k as int),
        decreases pattern@.len() - k,
    {
        if text[at + k] != pattern[k] {
            assert(text@.subrange(at as int, at + pattern@.len())[k as int] != pattern@[k as int]);
            return false;
        }
        assert(text@.subrange(at as int, at + k + 1) =~= text@.subrange(at as int, at + k).push(
            text@[at + k],
        ));
        assert(pattern@.subrange(0, k + 1) =~= pattern@.subrange(0, k as int).push(
            pattern@[k as int],
        ));
        k += 1;
    }
    assert(pattern@.subrange(0, k as int) =~= pattern@);
    true
}

/// Whether `pattern` lies somewhere in `text`.
pub fn contains(text: &[u8], pattern: &[u8]) -> (r: bool)
    ensures
        r == occurs(text@, pattern@),
{
    if pattern.len() > text.len() {
        return false;
    }
    let last: usize = text.len() - pattern.len();
    let mut at: usize = 0;
    while at < last
        invariant
            at <= last,
            last == text@.len() - pattern@.len(),
            text@.len() <= usize::MAX,
            forall|before: int| 0 <= before < at ==> !occurs_at(text@, pattern@, before),
        decreases last - at,
    {
        if lies_at(text, pattern, at) {
            return true;
        }
        at += 1;
    }
    lies_at(text, pattern, last)
}

/// Where the run of blanks ends that starts at `at`.
fn skip_blanks(text: &[u8], at: usize) -> (r: usize)
    requires
        at <= text@.len(),
    ensures
        r == after_blanks(text@, at as int),
        at <= r <= text@.len(),
{
    let mut k: usize = at;
    while k < text.len() && (text[k] == 0x20 || text[k] == 0x09 || text[k] == 0x0a || text[k]
        == 0x0d)
        invariant
            at <= k <= text@.len(),
            after_blanks(text@, at as int) == after_blanks(text@, k as int),
        decreases text@.len() - k,
    {
        k += 1;
    }
    k
}

/// Where the placeholder of `path` ends that starts at `at`, if one starts
/// there.
fn placeholder_at(text: &[u8], path: &[u8], at: usize) -> (r: Option<usize>)
    ensures
        r is Some <==> placeholder_end(text@, path@, at as int) is Some,
        r is Some ==> placeholder_end(text@, path@, at as int) == Some(r->Some_0 as int),
        r is Some ==> at < r->Some_0 <= text@.len(),
{
    let mut open: Vec<u8> = Vec::new();
    open.push(0x7b);
    open.push(0x7b);
    let mut close: Vec<u8> = Vec::new();
    close.push(0x7d);
    close.push(0x7d);
    assert(open@ =~= placeholder_open());
    assert(close@ =~= placeholder_close());
    if !lies_at(text, open.as_slice(), at) {
        return None;
    }
    let name: usize = skip_blanks(text, at + 2);
    if !lies_at(text, path, name) {
        return None;
    }
    let end: usize = skip_blanks(text, name + path.len());
    if !lies_at(text, close.as_slice(), end) {
        return None;
    }
    Some(end + 2)
}

/// Scans a template: nothing if it holds a tag of the engine that is no
/// placeholder of `path`, else whether it holds such a placeholder.
pub fn scan(text: &[u8], path: &[u8]) -> (r: Option<bool>)
    ensures
        r is Some <==> only_placeholders_from(text@, path@, 0),
        r is Some ==> r->Some_0 == has_placeholder(text@, path@),
{
    let len: usize = text.len();
    let mut found: bool = false;
    let mut at: usize = 0;
    while at < len
        invariant
            len == text@.len(),
            at <= text@.len() <= usize::MAX,
            only_placeholders_from(text@, path@, 0) == only_placeholders_from(
                text@,
                path@,
                at as int,
            ),
            found ==> has_placeholder(text@, path@),
            !found ==> forall|before: int| 0 <= before < at ==> !opens_tag(text@, before),
        decreases text@.len() - at,
    {
        let tag: bool = text[at] == 0x7b && at + 1 < len && (text[at + 1] == 0x7b || text[at + 1]
            == 0x25 || text[at + 1] == 0x23);
        if tag {
            match placeholder_at(text, path, at) {
                Some(end) => {
                    found = true;
                    at = end;
                },
                None => {
                    return None;
                },
            }
        } else {
            at += 1;
        }
    }
    proof {
        if !found {
            assert forall|start: int| placeholder_end(text@, path@, start) is None by {
                if occurs_at(text@, placeholder_open(), start) {
                    let braces = text@.subrange(start, start + 2);
                    assert(braces[0] == text@[start] && braces[1] == text@[start + 1]);
                    assert(opens_tag(text@, start));
                }
            }
        }
    }
    Some(found)
}

/// What becomes of the answer of the template engine. A rendered text that
/// is free of placeholders is the kernel source. One that is not is a
/// template error, and so is an error of the engine, which carries the
/// engine's words.
pub fn kernel_source(rendered: Result<String, tera::Error>) -> (r: Result<String, PipelineError>)
    ensures
        rendered is Ok && free_of_placeholders(rendered->Ok_0@) ==> r == Ok::<
            String,
            PipelineError,
        >(rendered->Ok_0),
        rendered is Ok && !free_of_placeholders(rendered->Ok_0@) ==> r is Err && r->Err_0
            is KernelTemplateError,
        rendered is Err ==> r is Err && r->Err_0 is KernelTemplateError,
{
    match rendered {
        Ok(source) => {
            let mut open: Vec<u8> = Vec::new();
            open.push(0x7b);
            open.push(0x7b);
            assert(open@ =~= placeholder_open());
            if contains(source.as_str().as_bytes(), open.as_slice()) {
                Err(
                    PipelineError::KernelTemplateError(
                        String::from_str("the rendered kernel still holds a placeholder"),
                    ),
                )
            } else {
                Ok(source)
            }
        },
        Err(error) => Err(PipelineError::KernelTemplateError(describe(&error))),
    }
}

/// Renders the kernel source from its template and the capacity.
///
/// The template is scanned first. It is turned away with a template error
/// unless it holds a placeholder of the capacity and no other tag of the
/// engine. An accepted template is handed to the engine together with the
/// capacity, and the engine's answer decides: its text is the kernel source
/// if it is free of placeholders, and anything else is a template error.
pub fn render(template: &str, static_config: StaticConfig) -> (r: Result<String, PipelineError>)
    ensures
        match kernel_text(template, static_config) {
            Some(text) => r is Ok && r->Ok_0@ == text,
            None => r is Err && r->Err_0 is KernelTemplateError,
        },
        !has_capacity_placeholder(template) ==> r is Err,
        r is Ok ==> free_of_placeholders(r->Ok_0@),
{
    let mut path: Vec<u8> = CONFIG_KEY.as_bytes_vec();
    path.push(0x2e);
    let mut field: Vec<u8> = CAPACITY_FIELD.as_bytes_vec();
    path.append(&mut field);
    assert(path@ =~= capacity_path());
    match scan(template.as_bytes(), path.as_slice()) {
        None => Err(
            PipelineError::KernelTemplateError(
                String::from_str("the template holds a tag other than the capacity placeholder"),
            ),
        ),
        Some(false) => Err(
            PipelineError::KernelTemplateError(
                String::from_str("the template holds no capacity placeholder"),
            ),
        ),
        Some(true) => {
            proof {
                lemma_capacity_names_are_identifiers();
            }
            kernel_source(
                render_one_off(template, CONFIG_KEY, CAPACITY_FIELD, static_config.max_bodies),
            )
        },
    }
}

} // verus!
