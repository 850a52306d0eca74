//! The renderer: serializes a canvas's visible content into a self-contained
//! vector-graphics markup document. The markup of every part of the scene is
//! defined at the spec level (`canvas_markup` and the functions it calls),
//! and each executable function is proved to emit exactly that markup, so
//! emission order — background first, then each drawing's own shape before
//! its children, siblings bottom to top — is pinned down by the contracts.

use crate::decimal::{append_int, dec_int};
use crate::scene::{Canvas, Drawing, Position, Shape};
use vstd::prelude::*;
use vstd::string::{StrSliceExecFns, StringExecFns};
use vstd::utf8::encode_utf8;

verus! {

/// Markup that opens a document: the root element, carrying the viewport
/// extents in its `viewBox` attribute.
pub open spec fn header_markup(width: int, height: int) -> Seq<char> {
    "<svg viewBox=\"0 0 "@ + dec_int(width) + " "@ + dec_int(height)
        + "\" xmlns=\"http://www.w3.org/2000/svg\">"@
}

/// Markup that closes a document.
pub open spec fn footer_markup() -> Seq<char> {
    "</svg>"@
}

/// Markup for one rectangle primitive: position, extent, and the fixed
/// default appearance (black fill, gray stroke of width 1).
pub open spec fn rect_markup(x: int, y: int, width: int, height: int) -> Seq<char> {
    "<rect x=\""@ + dec_int(x) + "\" y=\""@ + dec_int(y) + "\" width=\""@ + dec_int(width)
        + "\" height=\""@ + dec_int(height)
        + "\" fill=\"black\" stroke=\"gray\" stroke-width=\"1\"/>"@
}

/// The primitive a shape maps to, at the given position. Total over the
/// closed `Shape` set: a new variant cannot build until it gets a case here.
pub open spec fn shape_markup(shape: Shape, position: Position) -> Seq<char> {
    match shape {
        Shape::Rectangle { width, height } => rect_markup(
            position.x as int,
            position.y as int,
            width as int,
            height as int,
        ),
    }
}

/// The markup a drawing contributes: its own shape's primitive first, then
/// the subtree of each child, in display-list order.
pub open spec fn drawing_markup(drawing: Drawing) -> Seq<char>
    decreases drawing,
{
    shape_markup(drawing.shape, drawing.position) + display_list_markup(
        drawing.display_list.drawings@,
    )
}

/// The markup of a display list: each drawing's whole subtree, in order.
pub open spec fn display_list_markup(drawings: Seq<Drawing>) -> Seq<char>
    decreases drawings,
{
    if drawings.len() == 0 {
        Seq::empty()
    } else {
        display_list_markup(drawings.subrange(0, drawings.len() - 1)) + drawing_markup(
            drawings[drawings.len() - 1],
        )
    }
}

/// The markup the background contributes: its primitive at the origin, or
/// nothing.
pub open spec fn background_markup(background: Option<Shape>) -> Seq<char> {
    match background {
        Some(shape) => shape_markup(shape, Position { x: 0, y: 0 }),
        None => Seq::empty(),
    }
}

/// The complete markup of a canvas: header, background, root drawings in
/// bottom-to-top order, footer.
pub open spec fn canvas_markup(canvas: Canvas) -> Seq<char> {
    header_markup(canvas.width as int, canvas.height as int) + background_markup(canvas.background)
        + display_list_markup(canvas.drawings@) + footer_markup()
}

/// The byte buffer a canvas renders to: its markup, UTF-8 encoded.
pub open spec fn spec_render(canvas: Canvas) -> Seq<u8> {
    encode_utf8(canvas_markup(canvas))
}

/// A document under construction: the viewport extents it was scoped to,
/// and the markup of the primitives emitted so far.
pub struct Document {
    pub width: i64,
    pub height: i64,
    pub body: String,
}

/// The complete text of a document: header, accumulated body, footer.
pub open spec fn document_text(document: Document) -> Seq<char> {
    header_markup(document.width as int, document.height as int) + document.body@
        + footer_markup()
}

impl Document {
    /// An empty document scoped to the viewport `(0, 0, width, height)`.
    pub fn new(width: i64, height: i64) -> (d: Document)
        ensures
            d.width == width,
            d.height == height,
            d.body@ == Seq::<char>::empty(),
    {
        Document { width, height, body: String::new() }
    }

    /// Serializes the document: its complete text, UTF-8 encoded.
    pub fn to_bytes(self) -> (r: Vec<u8>)
        ensures
            r@ == encode_utf8(document_text(self)),
    {
        let mut text = String::new();
        append_header(&mut text, self.width, self.height);
        text.append(self.body.as_str());
        text.append("</svg>");
        proof {
            assert(text@ =~= document_text(self));
        }
        text.as_str().as_bytes_vec()
    }
}

/// Appends the document header for the given viewport extents.
fn append_header(out: &mut String, width: i64, height: i64)
    ensures
        final(out)@ == old(out)@ + header_markup(width as int, height as int),
{
    out.append("<svg viewBox=\"0 0 ");
    append_int(out, width);
    out.append(" ");
    append_int(out, height);
    out.append("\" xmlns=\"http://www.w3.org/2000/svg\">");
    proof {
        assert(out@ =~= old(out)@ + header_markup(width as int, height as int));
    }
}

/// Appends one rectangle primitive's markup.
fn append_rect(out: &mut String, x: i64, y: i64, width: i64, height: i64)
    ensures
        final(out)@ == old(out)@ + rect_markup(x as int, y as int, width as int, height as int),
{
    out.append("<rect x=\"");
    append_int(out, x);
    out.append("\" y=\"");
    append_int(out, y);
    out.append("\" width=\"");
    append_int(out, width);
    out.append("\" height=\"");
    append_int(out, height);
    out.append("\" fill=\"black\" stroke=\"gray\" stroke-width=\"1\"/>");
    proof {
        assert(out@ =~= old(out)@ + rect_markup(x as int, y as int, width as int, height as int));
    }
}

/// Emits `shape` as a primitive positioned at `position`, appending its
/// markup to the document. The dimensions are forwarded as they stand;
/// nothing is rejected. The match is exhaustive, so a new `Shape` variant
/// fails to build until it is mapped here.
pub fn render_shape(shape: &Shape, position: &Position, document: Document) -> (r: Document)
    ensures
        r.width == document.width,
        r.height == document.height,
        r.body@ == document.body@ + shape_markup(*shape, *position),
{
    let mut document = document;
    match shape {
        Shape::Rectangle { width, height } => {
            append_rect(&mut document.body, position.x, position.y, *width, *height);
        },
    }
    document
}

/// Emits a drawing and, after it, its whole subtree: the drawing's own shape
/// first, then each child's subtree in display-list order. Child positions
/// are used as they stand, not offset by the parent's position.
pub fn render_drawing(drawing: &Drawing, document: Document) -> (r: Document)
    ensures
        r.width == document.width,
        r.height == document.height,
        r.body@ == document.body@ + drawing_markup(*drawing),
    decreases *drawing,
{
    let ghost base = document.body@;
    let ghost w = document.width;
    let ghost h = document.height;
    let mut document = render_shape(&drawing.shape, &drawing.position, document);
    let n = drawing.display_list.drawings.len();
    let mut i: usize = 0;
    while i < n
        invariant
            i <= n,
            n == drawing.display_list.drawings@.len(),
            document.width == w,
            document.height == h,
            document.body@ == base + shape_markup(drawing.shape, drawing.position)
                + display_list_markup(drawing.display_list.drawings@.subrange(0, i as int)),
        decreases n - i,
    {
        document = render_drawing(&drawing.display_list.drawings[i], document);
        proof {
            let ds = drawing.display_list.drawings@;
            assert(ds.subrange(0, i + 1).subrange(0, i as int) =~= ds.subrange(0, i as int));
            assert(ds.subrange(0, i + 1)[i as int] == ds[i as int]);
            assert(document.body@ =~= base + shape_markup(drawing.shape, drawing.position)
                + display_list_markup(ds.subrange(0, i + 1)));
        }
        i = i + 1;
    }
    proof {
        assert(drawing.display_list.drawings@.subrange(0, n as int)
            =~= drawing.display_list.drawings@);
        assert(document.body@ =~= base + drawing_markup(*drawing));
    }
    document
}

/// Renders the canvas as a vector-graphics markup document.
pub struct SvgRenderer {}

impl SvgRenderer {
    pub fn new() -> (r: SvgRenderer)
        ensures
            r == (SvgRenderer {  }),
    {
        SvgRenderer {}
    }

    /// Serializes the canvas's visible content into a byte buffer: the
    /// background first if present, then every root drawing's subtree in
    /// bottom-to-top order. Pure in its input: the bytes are a function of
    /// the canvas value alone.
    pub fn render(&self, canvas: &Canvas) -> (r: Vec<u8>)
        ensures
            r@ == spec_render(*canvas),
    {
        let mut document = Document::new(canvas.width, canvas.height);
        if let Some(shape) = &canvas.background {
            let origin = Position::new(0, 0);
            document = render_shape(shape, &origin, document);
        }
        let drawings = canvas.drawings();
        let n = drawings.len();
        let mut i: usize = 0;
        while i < n
            invariant
                i <= n,
                n == canvas.drawings@.len(),
                *drawings == canvas.drawings,
                document.width == canvas.width,
                document.height == canvas.height,
                document.body@ == background_markup(canvas.background)
                    + display_list_markup(canvas.drawings@.subrange(0, i as int)),
            decreases n - i,
        {
            document = render_drawing(&drawings[i], document);
            proof {
                let ds = canvas.drawings@;
                assert(ds.subrange(0, i + 1).subrange(0, i as int) =~= ds.subrange(0, i as int));
                assert(ds.subrange(0, i + 1)[i as int] == ds[i as int]);
                assert(document.body@ =~= background_markup(canvas.background)
                    + display_list_markup(ds.subrange(0, i + 1)));
            }
            i = i + 1;
        }
        proof {
            assert(canvas.drawings@.subrange(0, n as int) =~= canvas.drawings@);
            assert(document_text(document) =~= canvas_markup(*canvas));
        }
        document.to_bytes()
    }
}

/// Concatenating display lists concatenates their markup: every subtree of
/// the first list is emitted, in full, before any subtree of the second.
pub proof fn lemma_display_list_markup_concat(s1: Seq<Drawing>, s2: Seq<Drawing>)
    ensures
        display_list_markup(s1 + s2) == display_list_markup(s1) + display_list_markup(s2),
    decreases s2.len(),
{
    if s2.len() == 0 {
        assert(s1 + s2 =~= s1);
        assert(display_list_markup(s1) + display_list_markup(s2) =~= display_list_markup(s1));
    } else {
        let s2f = s2.subrange(0, s2.len() - 1);
        lemma_display_list_markup_concat(s1, s2f);
        assert((s1 + s2).subrange(0, (s1 + s2).len() - 1) =~= s1 + s2f);
        assert((s1 + s2)[(s1 + s2).len() - 1] == s2[s2.len() - 1]);
        assert(display_list_markup(s1 + s2) =~= display_list_markup(s1) + display_list_markup(
            s2,
        ));
    }
}

/// UTF-8 encoding distributes over concatenation, so adjacent stretches of
/// markup stay adjacent, in order, in the rendered bytes.
pub proof fn lemma_encode_utf8_concat(s1: Seq<char>, s2: Seq<char>)
    ensures
        encode_utf8(s1 + s2) == encode_utf8(s1) + encode_utf8(s2),
    decreases s1.len(),
{
    if s1.len() == 0 {
        assert(s1 + s2 =~= s2);
        assert(encode_utf8(s1) + encode_utf8(s2) =~= encode_utf8(s2));
    } else {
        lemma_encode_utf8_concat(s1.drop_first(), s2);
        assert((s1 + s2).drop_first() =~= s1.drop_first() + s2);
        assert((s1 + s2)[0] == s1[0]);
        assert(encode_utf8(s1 + s2) =~= encode_utf8(s1) + encode_utf8(s2));
    }
}

/// The rendered bytes fall into four contiguous blocks in emission order:
/// the encoded header, the encoded background markup, the encoded markup of
/// the root drawings, and the encoded footer.
pub proof fn lemma_render_bytes_in_order(canvas: Canvas)
    ensures
        spec_render(canvas) == encode_utf8(
            header_markup(canvas.width as int, canvas.height as int),
        ) + encode_utf8(background_markup(canvas.background)) + encode_utf8(
            display_list_markup(canvas.drawings@),
        ) + encode_utf8(footer_markup()),
{
    let h = header_markup(canvas.width as int, canvas.height as int);
    let b = background_markup(canvas.background);
    let d = display_list_markup(canvas.drawings@);
    let f = footer_markup();
    lemma_encode_utf8_concat(h + b + d, f);
    lemma_encode_utf8_concat(h + b, d);
    lemma_encode_utf8_concat(h, b);
}

/// Determinism: the rendered bytes are a function of the canvas value
/// alone, so two renders of the same canvas are byte-identical.
pub proof fn lemma_render_deterministic(canvas: Canvas, r1: Seq<u8>, r2: Seq<u8>)
    requires
        r1 == spec_render(canvas),
        r2 == spec_render(canvas),
    ensures
        r1 == r2,
{
}

/// Background first: when the canvas has a background, its primitive's
/// bytes stand after the header and before the bytes of every root drawing.
pub proof fn lemma_background_first(canvas: Canvas, shape: Shape)
    requires
        canvas.background == Some(shape),
    ensures
        canvas_markup(canvas) == header_markup(canvas.width as int, canvas.height as int)
            + shape_markup(shape, Position { x: 0, y: 0 }) + display_list_markup(canvas.drawings@)
            + footer_markup(),
        spec_render(canvas) == encode_utf8(
            header_markup(canvas.width as int, canvas.height as int),
        ) + encode_utf8(shape_markup(shape, Position { x: 0, y: 0 })) + encode_utf8(
            display_list_markup(canvas.drawings@),
        ) + encode_utf8(footer_markup()),
{
    lemma_render_bytes_in_order(canvas);
}

/// A one-drawing display list contributes exactly that drawing's subtree.
pub proof fn lemma_display_list_markup_singleton(d: Drawing)
    ensures
        display_list_markup(seq![d]) == drawing_markup(d),
{
    assert(seq![d].subrange(0, 0) =~= Seq::<Drawing>::empty());
    assert(display_list_markup(Seq::<Drawing>::empty()) == Seq::<char>::empty());
    assert(display_list_markup(seq![d]) =~= drawing_markup(d));
}

/// Paint order: in a display list `[a, b]`, the whole subtree of `a` — its
/// primitive and all of its descendants' — stands strictly before the whole
/// subtree of `b`.
pub proof fn lemma_paint_order(a: Drawing, b: Drawing)
    ensures
        display_list_markup(seq![a, b]) == drawing_markup(a) + drawing_markup(b),
        encode_utf8(display_list_markup(seq![a, b])) == encode_utf8(drawing_markup(a))
            + encode_utf8(drawing_markup(b)),
{
    lemma_display_list_markup_singleton(a);
    lemma_display_list_markup_singleton(b);
    assert(seq![a, b] =~= seq![a] + seq![b]);
    lemma_display_list_markup_concat(seq![a], seq![b]);
    lemma_encode_utf8_concat(drawing_markup(a), drawing_markup(b));
}

/// Parent before children: a drawing with children `[c1, c2]` contributes
/// its own primitive first, then all of `c1`'s subtree, then all of `c2`'s.
pub proof fn lemma_parent_before_children(d: Drawing, c1: Drawing, c2: Drawing)
    requires
        d.display_list.drawings@ == seq![c1, c2],
    ensures
        drawing_markup(d) == shape_markup(d.shape, d.position) + drawing_markup(c1)
            + drawing_markup(c2),
        encode_utf8(drawing_markup(d)) == encode_utf8(shape_markup(d.shape, d.position))
            + encode_utf8(drawing_markup(c1)) + encode_utf8(drawing_markup(c2)),
{
    lemma_paint_order(c1, c2);
    assert(drawing_markup(d) =~= shape_markup(d.shape, d.position) + drawing_markup(c1)
        + drawing_markup(c2));
    lemma_encode_utf8_concat(
        shape_markup(d.shape, d.position) + drawing_markup(c1),
        drawing_markup(c2),
    );
    lemma_encode_utf8_concat(shape_markup(d.shape, d.position), drawing_markup(c1));
}

/// Shape mapping fidelity: a rectangle of extent `(width, height)` placed
/// at `(x, y)` maps to a primitive carrying exactly those four values and
/// the fixed appearance attributes spelled out in `rect_markup`.
pub proof fn lemma_shape_mapping(x: i64, y: i64, width: i64, height: i64)
    ensures
        shape_markup(Shape::Rectangle { width, height }, Position { x, y }) == rect_markup(
            x as int,
            y as int,
            width as int,
            height as int,
        ),
{
}

/// Empty canvas: with no background and no root drawings, the document
/// holds only the viewport declaration — header and footer, no primitives.
pub proof fn lemma_empty_canvas(canvas: Canvas)
    requires
        canvas.background is None,
        canvas.drawings@.len() == 0,
    ensures
        canvas_markup(canvas) == header_markup(canvas.width as int, canvas.height as int)
            + footer_markup(),
        spec_render(canvas) == encode_utf8(
            header_markup(canvas.width as int, canvas.height as int),
        ) + encode_utf8(footer_markup()),
{
    assert(canvas_markup(canvas) =~= header_markup(canvas.width as int, canvas.height as int)
        + footer_markup());
    lemma_encode_utf8_concat(
        header_markup(canvas.width as int, canvas.height as int),
        footer_markup(),
    );
}

} // verus!
