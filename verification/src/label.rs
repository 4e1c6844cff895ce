//! Labels for completion entries.
//!
//! A label is a piece of made-up C3 code in which the entry's name and its
//! detail text stand where the grammar expects an identifier and a type, and
//! three byte spans into that code: the name, a colon, and the detail. The
//! editor highlights the whole code and shows the three spans in that order.

use crate::text::{byte_len, has_prefix, lemma_piece_round_trip, lemma_utf8_concat};
use crate::text::{piece_range, range_bytes, ByteSpan, FragmentBuilder};
use vstd::prelude::*;
use vstd::utf8::*;

verus! {

/// What kind of thing a completion entry stands for.
#[derive(Clone, Copy, Debug, PartialEq, Eq, Structural)]
pub enum CompletionKind {
    Text,
    Method,
    Function,
    Constructor,
    Field,
    Variable,
    Class,
    Interface,
    Module,
    Property,
    Unit,
    Value,
    Enum,
    Keyword,
    Snippet,
    Color,
    File,
    Reference,
    Folder,
    EnumMember,
    Constant,
    Struct,
    Event,
    Operator,
    TypeParameter,
    Other(i32),
}

/// One entry of a completion list.
#[derive(Clone, Debug, PartialEq, Eq)]
pub struct Completion {
    pub label: String,
    pub detail: Option<String>,
    pub kind: Option<CompletionKind>,
}

/// Code for the highlighter, the spans of it to show, and the range of the
/// entry's own label that filtering matches against.
#[derive(Clone, Debug, PartialEq, Eq)]
pub struct CodeLabel {
    pub code: String,
    pub spans: Vec<ByteSpan>,
    pub filter_range: ByteSpan,
}

impl CodeLabel {
    /// Every span lies within the code.
    pub open spec fn well_formed(&self) -> bool {
        forall|i: int|
            0 <= i < self.spans@.len() ==> (#[trigger] self.spans@[i]).within(
                byte_len(self.code@),
            )
    }
}

/// The form of the code that carries an entry.
#[derive(Clone, Copy, Debug, PartialEq, Eq, Structural)]
pub enum Shape {
    /// The detail is a type and the name a variable of that type.
    Declaration,
    /// The detail is a type and the name is called.
    Call,
    /// The detail is the head of a macro definition and the name is called.
    Macro,
    /// The detail is free text.
    Prose,
}

/// Whether `detail` is written as the head of a macro definition.
pub open spec fn is_macro_signature(detail: Seq<char>) -> bool {
    "macro"@.is_prefix_of(detail)
}

/// The shape chosen for an entry of the given kind and detail.
pub open spec fn shape_of(kind: CompletionKind, detail: Seq<char>) -> Shape {
    match kind {
        CompletionKind::Variable | CompletionKind::Field => Shape::Declaration,
        CompletionKind::Method | CompletionKind::Function => if is_macro_signature(detail) {
            Shape::Macro
        } else {
            Shape::Call
        },
        _ => Shape::Prose,
    }
}

/// The start of every label's code, up to its colon.
pub open spec fn before_colon() -> Seq<char> {
    "int x = s(a"@
}

/// The colon of a named argument.
pub open spec fn colon() -> Seq<char> {
    ":"@
}

/// The rest of the call that holds the colon, and an empty line.
pub open spec fn after_colon() -> Seq<char> {
    "  5);\n\n"@
}

/// The two lines that every label's code begins with.
pub open spec fn preamble() -> Seq<char> {
    before_colon() + colon() + after_colon()
}

/// The code that stands before the name.
pub open spec fn before_name(detail: Seq<char>, shape: Shape) -> Seq<char> {
    match shape {
        Shape::Declaration | Shape::Call => preamble() + "def Mt = "@ + detail + ";\nint a = "@,
        Shape::Macro => preamble() + detail + "{}\nint a = "@,
        Shape::Prose => preamble() + "int a = "@,
    }
}

/// The code that stands behind the name.
pub open spec fn after_name(detail: Seq<char>, shape: Shape) -> Seq<char> {
    match shape {
        Shape::Declaration => ";"@,
        Shape::Call | Shape::Macro => "();"@,
        Shape::Prose => "; ])>)"@ + detail,
    }
}

/// The code that stands before the detail.
pub open spec fn before_detail(name: Seq<char>, shape: Shape) -> Seq<char> {
    match shape {
        Shape::Declaration | Shape::Call => preamble() + "def Mt = "@,
        Shape::Macro => preamble(),
        Shape::Prose => preamble() + "int a = "@ + name + "; ])>)"@,
    }
}

/// The code that stands behind the detail.
pub open spec fn after_detail(name: Seq<char>, shape: Shape) -> Seq<char> {
    match shape {
        Shape::Declaration => ";\nint a = "@ + name + ";"@,
        Shape::Call => ";\nint a = "@ + name + "();"@,
        Shape::Macro => "{}\nint a = "@ + name + "();"@,
        Shape::Prose => Seq::<char>::empty(),
    }
}

/// The whole code of a label.
pub open spec fn fragment_text(name: Seq<char>, detail: Seq<char>, shape: Shape) -> Seq<char> {
    before_name(detail, shape) + name + after_name(detail, shape)
}

/// The bytes of the code that hold the name.
pub open spec fn name_range(name: Seq<char>, detail: Seq<char>, shape: Shape) -> (int, int) {
    piece_range(before_name(detail, shape), name)
}

/// The bytes of the code that hold the detail.
pub open spec fn detail_range(name: Seq<char>, detail: Seq<char>, shape: Shape) -> (int, int) {
    piece_range(before_detail(name, shape), detail)
}

/// The bytes of the code that hold the colon.
pub open spec fn colon_range() -> (int, int) {
    piece_range(before_colon(), colon())
}

/// The code of a label is the same text whether it is read around the name
/// or around the detail.
pub proof fn lemma_fragment_around_detail(name: Seq<char>, detail: Seq<char>, shape: Shape)
    ensures
        fragment_text(name, detail, shape) == before_detail(name, shape) + detail + after_detail(
            name,
            shape,
        ),
{
    assert(fragment_text(name, detail, shape) =~= before_detail(name, shape) + detail
        + after_detail(name, shape));
}

/// Whether `label` is the label of an entry with the given name, detail and
/// kind.
pub open spec fn is_label_of(
    label: CodeLabel,
    name: Seq<char>,
    detail: Seq<char>,
    kind: CompletionKind,
) -> bool {
    let shape = shape_of(kind, detail);
    &&& label.code@ == fragment_text(name, detail, shape)
    &&& label.spans@.len() == 3
    &&& label.spans@[0].range() == name_range(name, detail, shape)
    &&& label.spans@[1].range() == colon_range()
    &&& label.spans@[2].range() == detail_range(name, detail, shape)
    &&& label.filter_range.range() == (0int, byte_len(name) as int)
}

/// Picks the shape for an entry of the given kind and detail.
pub fn classify(kind: CompletionKind, detail: &str) -> (shape: Shape)
    ensures
        shape == shape_of(kind, detail@),
{
    match kind {
        CompletionKind::Variable | CompletionKind::Field => Shape::Declaration,
        CompletionKind::Method | CompletionKind::Function => {
            if has_prefix(detail, "macro") {
                Shape::Macro
            } else {
                Shape::Call
            }
        },
        _ => Shape::Prose,
    }
}

/// Builds the label of a completion entry, or declines where the entry has
/// no detail or no kind.
pub fn label_for_completion(completion: Completion) -> (label: Option<CodeLabel>)
    ensures
        label is Some <==> completion.detail is Some && completion.kind is Some,
        label matches Some(l) ==> {
            let name = completion.label@;
            let detail = completion.detail->0@;
            let bytes = encode_utf8(l.code@);
            &&& is_label_of(l, name, detail, completion.kind->0)
            &&& l.well_formed()
            &&& range_bytes(bytes, l.spans@[0].range()) == encode_utf8(name)
            &&& range_bytes(bytes, l.spans@[1].range()) == encode_utf8(colon())
            &&& range_bytes(bytes, l.spans@[2].range()) == encode_utf8(detail)
        },
{
    let name = completion.label;
    let detail = match completion.detail {
        Some(detail) => detail,
        None => {
            return None;
        },
    };
    let kind = match completion.kind {
        Some(kind) => kind,
        None => {
            return None;
        },
    };
    let shape = classify(kind, detail.as_str());

    let mut builder = FragmentBuilder::new();
    builder.push("int x = s(a");
    let colon_span = builder.push(":");
    builder.push("  5);\n\n");
    assert(builder.text() =~= preamble());

    let (name_span, detail_span) = match shape {
        Shape::Declaration | Shape::Call => {
            builder.push("def Mt = ");
            assert(builder.text() =~= before_detail(name@, shape));
            let detail_span = builder.push(detail.as_str());
            builder.push(";\nint a = ");
            assert(builder.text() =~= before_name(detail@, shape));
            let name_span = builder.push(name.as_str());
            match shape {
                Shape::Call => {
                    builder.push("();");
                },
                _ => {
                    builder.push(";");
                },
            }
            (name_span, detail_span)
        },
        Shape::Macro => {
            let detail_span = builder.push(detail.as_str());
            builder.push("{}\nint a = ");
            assert(builder.text() =~= before_name(detail@, shape));
            let name_span = builder.push(name.as_str());
            builder.push("();");
            (name_span, detail_span)
        },
        Shape::Prose => {
            builder.push("int a = ");
            assert(builder.text() =~= before_name(detail@, shape));
            let name_span = builder.push(name.as_str());
            builder.push("; ])>)");
            assert(builder.text() =~= before_detail(name@, shape));
            let detail_span = builder.push(detail.as_str());
            (name_span, detail_span)
        },
    };
    let filter_range = ByteSpan { start: 0, end: name.as_str().as_bytes().len() };
    let code = builder.finish();
    proof {
        assert(code@ =~= fragment_text(name@, detail@, shape));
        lemma_fragment_around_detail(name@, detail@, shape);
        lemma_piece_round_trip(before_name(detail@, shape), name@, after_name(detail@, shape));
        lemma_piece_round_trip(before_detail(name@, shape), detail@, after_detail(name@, shape));
        lemma_colon_round_trip(name@, detail@, shape);
    }
    Some(CodeLabel { code, spans: vec![name_span, colon_span, detail_span], filter_range })
}

/// Whatever the entry, the colon span holds the colon.
pub proof fn lemma_colon_round_trip(name: Seq<char>, detail: Seq<char>, shape: Shape)
    ensures
        range_bytes(encode_utf8(fragment_text(name, detail, shape)), colon_range())
            == encode_utf8(colon()),
        colon_range().1 <= byte_len(fragment_text(name, detail, shape)),
{
    let rest = fragment_text(name, detail, shape).subrange(
        preamble().len() as int,
        fragment_text(name, detail, shape).len() as int,
    );
    assert(fragment_text(name, detail, shape) =~= before_colon() + colon() + (after_colon()
        + rest));
    lemma_piece_round_trip(before_colon(), colon(), after_colon() + rest);
}

/// Entries whose detail is a type or a signature: variables, fields, methods
/// and functions.
pub open spec fn is_typed(kind: CompletionKind) -> bool {
    kind is Variable || kind is Field || kind is Method || kind is Function
}

/// Entries that are called: methods and functions.
pub open spec fn is_callable(kind: CompletionKind) -> bool {
    kind is Method || kind is Function
}

/// The bytes of the code of the label of an entry.
pub open spec fn fragment_bytes(name: Seq<char>, detail: Seq<char>, kind: CompletionKind) -> Seq<
    u8,
> {
    encode_utf8(fragment_text(name, detail, shape_of(kind, detail)))
}

/// For every name, detail and kind, the name span lies within the code, the
/// bytes of the code at the name span are the bytes of the name, and they
/// decode to the name.
pub proof fn law_name_round_trip(name: Seq<char>, detail: Seq<char>, kind: CompletionKind)
    ensures
        0 <= name_range(name, detail, shape_of(kind, detail)).0 <= name_range(
            name,
            detail,
            shape_of(kind, detail),
        ).1 <= fragment_bytes(name, detail, kind).len(),
        range_bytes(
            fragment_bytes(name, detail, kind),
            name_range(name, detail, shape_of(kind, detail)),
        ) == encode_utf8(name),
        decode_utf8(
            range_bytes(
                fragment_bytes(name, detail, kind),
                name_range(name, detail, shape_of(kind, detail)),
            ),
        ) == name,
{
    let shape = shape_of(kind, detail);
    lemma_piece_round_trip(before_name(detail, shape), name, after_name(detail, shape));
}

/// For every name, detail and kind, the detail span lies within the code,
/// the bytes of the code at the detail span are the bytes of the detail, and
/// they decode to the detail.
pub proof fn law_detail_round_trip(name: Seq<char>, detail: Seq<char>, kind: CompletionKind)
    ensures
        0 <= detail_range(name, detail, shape_of(kind, detail)).0 <= detail_range(
            name,
            detail,
            shape_of(kind, detail),
        ).1 <= fragment_bytes(name, detail, kind).len(),
        range_bytes(
            fragment_bytes(name, detail, kind),
            detail_range(name, detail, shape_of(kind, detail)),
        ) == encode_utf8(detail),
        decode_utf8(
            range_bytes(
                fragment_bytes(name, detail, kind),
                detail_range(name, detail, shape_of(kind, detail)),
            ),
        ) == detail,
{
    let shape = shape_of(kind, detail);
    lemma_fragment_around_detail(name, detail, shape);
    lemma_piece_round_trip(before_detail(name, shape), detail, after_detail(name, shape));
}

/// The colon span is the one byte at offset 11, and for every name, detail
/// and kind the code holds a colon there and nothing else.
pub proof fn law_colon_fixed(name: Seq<char>, detail: Seq<char>, kind: CompletionKind)
    ensures
        colon_range() == (11int, 12int),
        range_bytes(fragment_bytes(name, detail, kind), colon_range()) == seq![0x3au8],
        decode_utf8(range_bytes(fragment_bytes(name, detail, kind), colon_range())) == seq![':'],
{
    lemma_colon_round_trip(name, detail, shape_of(kind, detail));
    reveal_strlit("int x = s(a");
    reveal_strlit(":");
    assert(is_ascii_chars(before_colon()));
    assert(is_ascii_chars(colon()));
    is_ascii_chars_encode_utf8(before_colon());
    is_ascii_chars_encode_utf8(colon());
    assert(encode_utf8(colon()) =~= seq![0x3au8]);
    assert(colon() =~= seq![':']);
    encode_utf8_decode_utf8(colon());
}

/// For a method or a function whose detail is no macro signature, the two
/// bytes right behind the name span are `()`.
pub proof fn law_call_follows_name(name: Seq<char>, detail: Seq<char>, kind: CompletionKind)
    requires
        is_callable(kind),
        !is_macro_signature(detail),
    ensures
        ({
            let end = name_range(name, detail, shape_of(kind, detail)).1;
            &&& end + 2 <= fragment_bytes(name, detail, kind).len()
            &&& range_bytes(fragment_bytes(name, detail, kind), (end, end + 2)) == seq![
                0x28u8,
                0x29u8,
            ]
            &&& range_bytes(fragment_bytes(name, detail, kind), (end, end + 2)) == encode_utf8(
                "()"@,
            )
        }),
{
    let shape = shape_of(kind, detail);
    assert(fragment_text(name, detail, shape) =~= (before_name(detail, shape) + name) + "()"@
        + ";"@) by {
        reveal_strlit("();");
        reveal_strlit("()");
        reveal_strlit(";");
        assert("();"@ =~= "()"@ + ";"@);
    }
    lemma_utf8_concat(before_name(detail, shape), name);
    lemma_piece_round_trip(before_name(detail, shape) + name, "()"@, ";"@);
    reveal_strlit("()");
    assert(is_ascii_chars("()"@));
    is_ascii_chars_encode_utf8("()"@);
    assert(encode_utf8("()"@) =~= seq![0x28u8, 0x29u8]);
}

/// For a method or a function whose detail is a macro signature, the detail
/// stands right behind the preamble, with no type alias around it, and the
/// two bytes right behind the detail span are `{}`.
pub proof fn law_macro_body_follows_detail(
    name: Seq<char>,
    detail: Seq<char>,
    kind: CompletionKind,
)
    requires
        is_callable(kind),
        is_macro_signature(detail),
    ensures
        fragment_text(name, detail, shape_of(kind, detail)) == preamble() + detail + "{}"@
            + "\nint a = "@ + name + "();"@,
        ({
            let range = detail_range(name, detail, shape_of(kind, detail));
            &&& range.0 == byte_len(preamble()) == 19
            &&& range.1 + 2 <= fragment_bytes(name, detail, kind).len()
            &&& range_bytes(fragment_bytes(name, detail, kind), (range.1, range.1 + 2)) == seq![
                0x7bu8,
                0x7du8,
            ]
            &&& range_bytes(fragment_bytes(name, detail, kind), (range.1, range.1 + 2))
                == encode_utf8("{}"@)
        }),
{
    let shape = shape_of(kind, detail);
    let tail = "\nint a = "@ + name + "();"@;
    assert(fragment_text(name, detail, shape) =~= preamble() + detail + "{}"@ + "\nint a = "@
        + name + "();"@) by {
        reveal_strlit("{}\nint a = ");
        reveal_strlit("{}");
        reveal_strlit("\nint a = ");
        assert("{}\nint a = "@ =~= "{}"@ + "\nint a = "@);
    }
    assert(fragment_text(name, detail, shape) =~= (preamble() + detail) + "{}"@ + tail);
    lemma_utf8_concat(preamble(), detail);
    lemma_piece_round_trip(preamble() + detail, "{}"@, tail);
    reveal_strlit("{}");
    assert(is_ascii_chars("{}"@));
    is_ascii_chars_encode_utf8("{}"@);
    assert(encode_utf8("{}"@) =~= seq![0x7bu8, 0x7du8]);
    lemma_preamble_len();
}

/// For every other kind, the bytes between the name span and the detail span
/// are the filler `; ])>)`, which is no valid code, and the detail span ends
/// where the code ends.
pub proof fn law_filler_between_name_and_detail(
    name: Seq<char>,
    detail: Seq<char>,
    kind: CompletionKind,
)
    requires
        !is_typed(kind),
    ensures
        ({
            let bytes = fragment_bytes(name, detail, kind);
            let name_end = name_range(name, detail, shape_of(kind, detail)).1;
            let detail_start = detail_range(name, detail, shape_of(kind, detail)).0;
            let detail_end = detail_range(name, detail, shape_of(kind, detail)).1;
            &&& detail_start == name_end + 6
            &&& range_bytes(bytes, (name_end, detail_start)) == encode_utf8("; ])>)"@)
            &&& range_bytes(bytes, (name_end, detail_start)) == seq![
                0x3bu8,
                0x20u8,
                0x5du8,
                0x29u8,
                0x3eu8,
                0x29u8,
            ]
            &&& detail_end == bytes.len()
        }),
{
    let shape = shape_of(kind, detail);
    let front = before_name(detail, shape) + name;
    assert(fragment_text(name, detail, shape) =~= front + "; ])>)"@ + detail);
    assert(before_detail(name, shape) =~= front + "; ])>)"@);
    lemma_utf8_concat(before_name(detail, shape), name);
    lemma_utf8_concat(front, "; ])>)"@);
    lemma_utf8_concat(front + "; ])>)"@, detail);
    lemma_piece_round_trip(front, "; ])>)"@, detail);
    reveal_strlit("; ])>)");
    assert(is_ascii_chars("; ])>)"@));
    is_ascii_chars_encode_utf8("; ])>)"@);
    assert(encode_utf8("; ])>)"@) =~= seq![0x3bu8, 0x20u8, 0x5du8, 0x29u8, 0x3eu8, 0x29u8]);
}

/// The preamble takes 19 bytes.
pub proof fn lemma_preamble_len()
    ensures
        byte_len(preamble()) == 19,
{
    reveal_strlit("int x = s(a");
    reveal_strlit(":");
    reveal_strlit("  5);\n\n");
    assert(is_ascii_chars(preamble()));
    is_ascii_chars_encode_utf8(preamble());
}

} // verus!
