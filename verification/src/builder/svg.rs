//! The SVG emitter.
//!
//! A drawing becomes a document model first: the attributes of the root
//! element, the hidden definitions of shared paths, one element for each
//! item in the order of the items, and a transparent frame. The model is
//! then written out through an XML writer.

use crate::builder::{extent_x, extent_y, normalize, BuilderOptions, GraphicBuilder, SizeUnit};
use crate::error::GraphicsError;
use crate::item::{
    Fill, GraphicItem, GraphicItemView, GraphicItems, PathCacheInfo, PathCacheInfoView, Stroke,
};
use crate::path::path_text;
use crate::rect::Rectangle;
use crate::scalar::{decimal_text, Scalar};
use vstd::prelude::*;

verus! {

/// A call that an XML writer takes: the start of an element, an attribute
/// of the element just started, or the end of the innermost open element.
pub enum XmlCall {
    Start(Seq<char>),
    Attribute(Seq<char>, Seq<char>),
    End,
}

#[verifier::external_type_specification]
#[verifier::external_body]
pub struct ExXmlWriter(xmlwriter::XmlWriter);

/// The calls made on a writer since it was created, in their order.
pub uninterp spec fn xml_calls(w: xmlwriter::XmlWriter) -> Seq<XmlCall>;

/// The document that a writer with default options hands out after the
/// given calls.
pub uninterp spec fn xml_document(calls: Seq<XmlCall>) -> Seq<char>;

/// Whether the last call left a tag open, so that an attribute can follow.
pub open spec fn in_tag(calls: Seq<XmlCall>) -> bool {
    calls.len() > 0 && !(calls.last() is End)
}

/// `XmlWriter::new` with `Options::default()`: a writer on which no call
/// has been made.
#[verifier::external_body]
fn xml_new() -> (w: xmlwriter::XmlWriter)
    ensures
        xml_calls(w) == Seq::<XmlCall>::empty(),
{
    xmlwriter::XmlWriter::new(xmlwriter::Options::default())
}

/// `XmlWriter::start_element`: closes the tag that stands open, if any, and
/// opens the tag of a new element. It accepts any writer and any name.
#[verifier::external_body]
fn xml_start(w: &mut xmlwriter::XmlWriter, name: &str)
    ensures
        xml_calls(*final(w)) == xml_calls(*old(w)).push(XmlCall::Start(name@)),
{
    w.start_element(name);
}

/// `XmlWriter::write_attribute` with a string as the value: writes one
/// attribute into the open tag. It panics unless the call before it was
/// `start_element` or `write_attribute`.
#[verifier::external_body]
fn xml_attribute(w: &mut xmlwriter::XmlWriter, name: &str, value: &str)
    requires
        in_tag(xml_calls(*old(w))),
    ensures
        xml_calls(*final(w)) == xml_calls(*old(w)).push(XmlCall::Attribute(name@, value@)),
{
    w.write_attribute(name, value);
}

/// `XmlWriter::end_element`: closes the innermost open element. It accepts
/// any writer.
#[verifier::external_body]
fn xml_end(w: &mut xmlwriter::XmlWriter)
    ensures
        xml_calls(*final(w)) == xml_calls(*old(w)).push(XmlCall::End),
{
    w.end_element();
}

/// `XmlWriter::end_document`: closes the elements that are still open and
/// hands out the text, which the calls made determine.
#[verifier::external_body]
fn xml_finish(w: xmlwriter::XmlWriter) -> (r: String)
    ensures
        r@ == xml_document(xml_calls(w)),
{
    w.end_document()
}

/// An attribute of an element: a name and a value.
#[derive(Debug, PartialEq, Eq)]
pub struct Attribute {
    pub name: String,
    pub value: String,
}

impl View for Attribute {
    type V = (Seq<char>, Seq<char>);

    open spec fn view(&self) -> (Seq<char>, Seq<char>) {
        (self.name@, self.value@)
    }
}

/// What a list of attributes holds.
pub open spec fn attribute_views(attributes: Seq<Attribute>) -> Seq<(Seq<char>, Seq<char>)> {
    Seq::new(attributes.len(), |i: int| attributes[i]@)
}

/// An element without children: a name and its attributes in their order.
#[derive(Debug, PartialEq, Eq)]
pub struct Element {
    pub name: String,
    pub attributes: Vec<Attribute>,
}

/// What an [`Element`] holds.
pub struct ElementView {
    pub name: Seq<char>,
    pub attributes: Seq<(Seq<char>, Seq<char>)>,
}

impl View for Element {
    type V = ElementView;

    open spec fn view(&self) -> ElementView {
        ElementView { name: self.name@, attributes: attribute_views(self.attributes@) }
    }
}

/// What a list of elements holds.
pub open spec fn element_views(elements: Seq<Element>) -> Seq<ElementView> {
    Seq::new(elements.len(), |i: int| elements[i]@)
}

/// The model of an SVG document.
#[derive(Debug, PartialEq, Eq)]
pub struct SvgDocument {
    /// The attributes of the root element.
    pub attributes: Vec<Attribute>,
    /// The hidden definitions of shared paths, one for each tag.
    pub definitions: Vec<Element>,
    /// One element for each item of the drawing, in the order of the items.
    pub shapes: Vec<Element>,
    /// The transparent rectangle that spans the whole drawing.
    pub frame: Element,
}

/// What an [`SvgDocument`] holds.
pub struct SvgDocumentView {
    pub attributes: Seq<(Seq<char>, Seq<char>)>,
    pub definitions: Seq<ElementView>,
    pub shapes: Seq<ElementView>,
    pub frame: ElementView,
}

impl View for SvgDocument {
    type V = SvgDocumentView;

    open spec fn view(&self) -> SvgDocumentView {
        SvgDocumentView {
            attributes: attribute_views(self.attributes@),
            definitions: element_views(self.definitions@),
            shapes: element_views(self.shapes@),
            frame: self.frame@,
        }
    }
}

/// The attributes that state a stroke: its colour and its width, and none
/// where there is no stroke.
pub open spec fn stroke_attributes(stroke: Stroke) -> Seq<(Seq<char>, Seq<char>)> {
    match stroke {
        Stroke::Strokestyle(width, color) => seq![
            ("stroke"@, color.text()),
            ("stroke-width"@, decimal_text(width@)),
        ],
        Stroke::NoStroke => Seq::empty(),
    }
}

/// The attribute that states a fill: its colour, or `none` where there is
/// no fill.
pub open spec fn fill_attribute(fill: Fill) -> (Seq<char>, Seq<char>) {
    match fill {
        Fill::Fillstyle(color) => ("fill"@, color.text()),
        Fill::NoFill => ("fill"@, "none"@),
    }
}

/// The element that draws an item.
///
/// A line states its two ends; a rectangle its corner and size; an ellipse
/// its centre and radii; a path its segments. A path that shares its
/// geometry under a tag refers to the definition of the tag and states its
/// placement. Each states its own stroke, and all but the line their fill.
pub open spec fn element_of(item: GraphicItemView) -> ElementView {
    match item {
        GraphicItemView::Line(x1, y1, x2, y2, stroke) => ElementView {
            name: "line"@,
            attributes: seq![
                ("x1"@, decimal_text(x1@)),
                ("y1"@, decimal_text(y1@)),
                ("x2"@, decimal_text(x2@)),
                ("y2"@, decimal_text(y2@)),
            ] + stroke_attributes(stroke),
        },
        GraphicItemView::Rect(x, y, w, h, stroke, fill) => ElementView {
            name: "rect"@,
            attributes: (seq![
                ("x"@, decimal_text(x@)),
                ("y"@, decimal_text(y@)),
                ("width"@, decimal_text(w@)),
                ("height"@, decimal_text(h@)),
            ] + stroke_attributes(stroke)).push(fill_attribute(fill)),
        },
        GraphicItemView::Ellipse(x, y, w, h, stroke, fill) => ElementView {
            name: "ellipse"@,
            attributes: (seq![
                ("cx"@, decimal_text(x.spec_plus(w.spec_half())@)),
                ("cy"@, decimal_text(y.spec_plus(h.spec_half())@)),
                ("rx"@, decimal_text(w.spec_half()@)),
                ("ry"@, decimal_text(h.spec_half()@)),
            ] + stroke_attributes(stroke)).push(fill_attribute(fill)),
        },
        GraphicItemView::Path(path, stroke, fill, PathCacheInfoView::NoCache) => ElementView {
            name: "path"@,
            attributes: (seq![("d"@, path_text(path))] + stroke_attributes(stroke)).push(
                fill_attribute(fill),
            ),
        },
        GraphicItemView::Path(_, stroke, fill, PathCacheInfoView::Cache(tag, x, y)) => ElementView {
            name: "use"@,
            attributes: (seq![
                ("href"@, "#"@ + tag),
                ("x"@, decimal_text(x@)),
                ("y"@, decimal_text(y@)),
            ] + stroke_attributes(stroke)).push(fill_attribute(fill)),
        },
    }
}

/// Whether an item is a path that shares its geometry under `tag`.
pub open spec fn carries(item: GraphicItemView, tag: Seq<char>) -> bool {
    item matches GraphicItemView::Path(_, _, _, PathCacheInfoView::Cache(t, _, _)) && t == tag
}

/// Whether one of the first `n` items carries `tag`.
pub open spec fn tagged_among(items: Seq<GraphicItemView>, n: int, tag: Seq<char>) -> bool
    decreases n,
{
    n > 0 && (carries(items[n - 1], tag) || tagged_among(items, n - 1, tag))
}

/// The definition of a shared path: a path element named by the tag.
pub open spec fn definition_of(item: GraphicItemView) -> ElementView {
    match item {
        GraphicItemView::Path(path, _, _, PathCacheInfoView::Cache(tag, _, _)) => ElementView {
            name: "path"@,
            attributes: seq![("id"@, tag), ("d"@, path_text(path))],
        },
        _ => ElementView { name: Seq::empty(), attributes: Seq::empty() },
    }
}

/// Whether the item defines the geometry of its tag: it carries a tag that
/// none of the `n` items before it carries.
pub open spec fn defines(items: Seq<GraphicItemView>, n: int) -> bool {
    items[n] matches GraphicItemView::Path(_, _, _, PathCacheInfoView::Cache(tag, _, _))
        && !tagged_among(items, n, tag)
}

/// The definitions that the first `n` items give: one for each tag, taken
/// from the first item that carries the tag, in the order of those items.
pub open spec fn definitions(items: Seq<GraphicItemView>, n: int) -> Seq<ElementView>
    decreases n,
{
    if n <= 0 {
        Seq::empty()
    } else if defines(items, n - 1) {
        definitions(items, n - 1).push(definition_of(items[n - 1]))
    } else {
        definitions(items, n - 1)
    }
}

/// The tag that a definition defines: the value of its first attribute.
pub open spec fn defined_tag(definition: ElementView) -> Seq<char> {
    definition.attributes[0].1
}

/// Whether an element is the definition of one of the first `n` items, one
/// that is the first to carry its tag.
pub open spec fn defined_by_first(items: Seq<GraphicItemView>, n: int, e: ElementView) -> bool {
    exists|i: int| 0 <= i < n && defines(items, i) && e == definition_of(#[trigger] items[i])
}

/// Each tag has exactly one definition. Every definition is that of an item
/// which is the first to carry its tag; every tag that an item carries has
/// a definition; and no two definitions define the same tag.
pub proof fn lemma_one_definition_for_each_tag(items: Seq<GraphicItemView>, n: int)
    requires
        0 <= n <= items.len(),
    ensures
        forall|k: int|
            0 <= k < definitions(items, n).len() ==> defined_by_first(
                items,
                n,
                #[trigger] definitions(items, n)[k],
            ),
        forall|k: int|
            0 <= k < definitions(items, n).len() ==> tagged_among(
                items,
                n,
                defined_tag(#[trigger] definitions(items, n)[k]),
            ),
        forall|tag: Seq<char>| #[trigger]
            tagged_among(items, n, tag) ==> exists|k: int|
                0 <= k < definitions(items, n).len() && defined_tag(
                    #[trigger] definitions(items, n)[k],
                ) == tag,
        forall|j: int, k: int|
            0 <= j < k < definitions(items, n).len() ==> defined_tag(
                #[trigger] definitions(items, n)[j],
            ) != defined_tag(#[trigger] definitions(items, n)[k]),
    decreases n,
{
    if n > 0 {
        lemma_one_definition_for_each_tag(items, n - 1);
        let before = definitions(items, n - 1);
        let now = definitions(items, n);
        let item = items[n - 1];
        assert forall|k: int| 0 <= k < now.len() implies defined_by_first(
            items,
            n,
            #[trigger] now[k],
        ) by {
            if k < before.len() {
                assert(now[k] == before[k]);
                assert(defined_by_first(items, n - 1, before[k]));
                let i = choose|i: int|
                    0 <= i < n - 1 && defines(items, i) && before[k] == definition_of(
                        #[trigger] items[i],
                    );
                assert(0 <= i < n && defines(items, i) && now[k] == definition_of(items[i]));
            } else {
                assert(defines(items, n - 1) && now[k] == definition_of(items[n - 1]));
            }
        }
        assert forall|k: int| 0 <= k < now.len() implies tagged_among(
            items,
            n,
            defined_tag(#[trigger] now[k]),
        ) by {
            if k < before.len() {
                assert(now[k] == before[k]);
                assert(tagged_among(items, n - 1, defined_tag(before[k])));
            } else {
                assert(carries(item, defined_tag(now[k])));
            }
        }
        assert forall|tag: Seq<char>| #[trigger] tagged_among(items, n, tag) implies exists|
            k: int,
        |
            0 <= k < now.len() && defined_tag(#[trigger] now[k]) == tag by {
            if tagged_among(items, n - 1, tag) {
                let k = choose|k: int|
                    0 <= k < before.len() && defined_tag(#[trigger] before[k]) == tag;
                assert(now[k] == before[k]);
            } else {
                assert(carries(item, tag));
                assert(defines(items, n - 1));
                assert(defined_tag(now[before.len() as int]) == tag);
            }
        }
        assert forall|j: int, k: int| 0 <= j < k < now.len() implies defined_tag(
            #[trigger] now[j],
        ) != defined_tag(#[trigger] now[k]) by {
            assert(now[j] == before[j]);
            if k < before.len() {
                assert(now[k] == before[k]);
            } else {
                assert(tagged_among(items, n - 1, defined_tag(before[j])));
                assert(carries(item, defined_tag(now[k])));
            }
        }
    }
}

/// How a width or height is stated. With options: the extent times the
/// size scaling, rounded to two decimals, and the unit behind it where the
/// unit is rem. Without: the extent as it is.
pub open spec fn size_text(extent: Scalar, options: Option<BuilderOptions>) -> Seq<char> {
    match options {
        Some(o) => decimal_text(extent.spec_times(o.size_scaling).spec_round2()@) + (
        match o.size_unit {
            SizeUnit::Pixel => Seq::<char>::empty(),
            SizeUnit::Rem => "rem"@,
        }),
        None => decimal_text(extent@),
    }
}

/// The attributes of the root element: the two namespaces, the stated
/// width and height, and the view box from the origin over the extent of
/// the drawing.
pub open spec fn root_attributes(bbox: Rectangle, options: Option<BuilderOptions>) -> Seq<
    (Seq<char>, Seq<char>),
> {
    seq![
        ("xmlns"@, "http://www.w3.org/2000/svg"@),
        ("xmlns:xlink"@, "http://www.w3.org/1999/xlink"@),
        ("width"@, size_text(extent_x(bbox), options)),
        ("height"@, size_text(extent_y(bbox), options)),
        (
            "viewBox"@,
            "0 0 "@ + decimal_text(extent_x(bbox)@) + " "@ + decimal_text(extent_y(bbox)@),
        ),
    ]
}

/// The transparent rectangle from the origin over the extent of the
/// drawing.
pub open spec fn frame_of(bbox: Rectangle) -> ElementView {
    ElementView {
        name: "rect"@,
        attributes: seq![
            ("x"@, "0"@),
            ("y"@, "0"@),
            ("width"@, decimal_text(extent_x(bbox)@)),
            ("height"@, decimal_text(extent_y(bbox)@)),
            ("stroke"@, "transparent"@),
            ("stroke-width"@, "1"@),
            ("fill"@, "none"@),
        ],
    }
}

/// The document model of a drawing at the origin whose bounding box, before
/// it was brought there, was `bbox`.
pub open spec fn svg_document(
    items: Seq<GraphicItemView>,
    bbox: Rectangle,
    options: Option<BuilderOptions>,
) -> SvgDocumentView {
    SvgDocumentView {
        attributes: root_attributes(bbox, options),
        definitions: definitions(items, items.len() as int),
        shapes: Seq::new(items.len(), |i: int| element_of(items[i])),
        frame: frame_of(bbox),
    }
}

/// The fill of an item.
pub open spec fn fill_of(item: GraphicItemView) -> Option<Fill> {
    match item {
        GraphicItemView::Line(..) => None,
        GraphicItemView::Rect(_, _, _, _, _, fill) => Some(fill),
        GraphicItemView::Ellipse(_, _, _, _, _, fill) => Some(fill),
        GraphicItemView::Path(_, _, fill, _) => Some(fill),
    }
}

/// Every shape of a document that can have a fill states it, as the last
/// of its attributes; a shape without fill states `fill="none"`.
pub proof fn lemma_fill_is_stated(
    items: Seq<GraphicItemView>,
    bbox: Rectangle,
    options: Option<BuilderOptions>,
    i: int,
)
    requires
        0 <= i < items.len(),
        fill_of(items[i]) is Some,
    ensures
        svg_document(items, bbox, options).shapes[i].attributes.last() == fill_attribute(
            fill_of(items[i])->0,
        ),
        fill_of(items[i]) == Some(Fill::NoFill) ==> svg_document(
            items,
            bbox,
            options,
        ).shapes[i].attributes.last() == ("fill"@, "none"@),
{
}

/// The calls that write a list of attributes.
pub open spec fn attribute_calls(attributes: Seq<(Seq<char>, Seq<char>)>) -> Seq<XmlCall> {
    Seq::new(attributes.len(), |i: int| XmlCall::Attribute(attributes[i].0, attributes[i].1))
}

/// The calls that write one element: its start, its attributes, its end.
pub open spec fn element_calls(element: ElementView) -> Seq<XmlCall> {
    seq![XmlCall::Start(element.name)] + attribute_calls(element.attributes) + seq![XmlCall::End]
}

/// The calls that write a list of elements, one after the other.
pub open spec fn elements_calls(elements: Seq<ElementView>) -> Seq<XmlCall>
    decreases elements.len(),
{
    if elements.len() == 0 {
        Seq::empty()
    } else {
        elements_calls(elements.drop_last()) + element_calls(elements.last())
    }
}

/// The calls that write a document: the root element with its attributes;
/// inside it the hidden `defs` element with the definitions, then the
/// shapes, then the frame. The root element is left for the writer to
/// close.
pub open spec fn document_calls(doc: SvgDocumentView) -> Seq<XmlCall> {
    seq![XmlCall::Start("svg"@)] + attribute_calls(doc.attributes) + seq![
        XmlCall::Start("defs"@),
        XmlCall::Attribute("visibility"@, "hidden"@),
    ] + elements_calls(doc.definitions) + seq![XmlCall::End] + elements_calls(doc.shapes)
        + element_calls(doc.frame)
}

/// What a list of tags holds.
pub open spec fn tag_views(tags: Seq<String>) -> Seq<Seq<char>> {
    Seq::new(tags.len(), |i: int| tags[i]@)
}

/// Appends an attribute to a list.
fn push_attribute(attributes: &mut Vec<Attribute>, name: &str, value: String)
    ensures
        attribute_views(final(attributes)@) == attribute_views(old(attributes)@).push(
            (name@, value@),
        ),
{
    let attribute = Attribute { name: String::from_str(name), value };
    attributes.push(attribute);
    proof {
        assert(attribute_views(attributes@) =~= attribute_views(old(attributes)@).push(
            (name@, value@),
        ));
    }
}

/// Appends the attributes of a stroke to a list.
fn push_stroke(attributes: &mut Vec<Attribute>, stroke: &Stroke)
    ensures
        attribute_views(final(attributes)@) == attribute_views(old(attributes)@)
            + stroke_attributes(*stroke),
{
    match *stroke {
        Stroke::Strokestyle(width, color) => {
            push_attribute(attributes, "stroke", color.to_string());
            push_attribute(attributes, "stroke-width", width.to_string());
        },
        Stroke::NoStroke => {},
    }
    proof {
        assert(attribute_views(attributes@) =~= attribute_views(old(attributes)@)
            + stroke_attributes(*stroke));
    }
}

/// Appends the attribute of a fill to a list.
fn push_fill(attributes: &mut Vec<Attribute>, fill: &Fill)
    ensures
        attribute_views(final(attributes)@) == attribute_views(old(attributes)@).push(
            fill_attribute(*fill),
        ),
{
    match *fill {
        Fill::Fillstyle(color) => {
            push_attribute(attributes, "fill", color.to_string());
        },
        Fill::NoFill => {
            push_attribute(attributes, "fill", String::from_str("none"));
        },
    }
}

/// Whether a list of tags holds `tag`.
fn knows(tags: &Vec<String>, tag: &String) -> (r: bool)
    ensures
        r == tag_views(tags@).contains(tag@),
{
    let mut i: usize = 0;
    while i < tags.len()
        invariant
            i <= tags.len(),
            forall|k: int| 0 <= k < i ==> tags@[k]@ != tag@,
        decreases tags.len() - i,
    {
        if tags[i] == *tag {
            proof {
                assert(tag_views(tags@)[i as int] == tag@);
            }
            return true;
        }
        i += 1;
    }
    proof {
        assert forall|k: int| 0 <= k < tag_views(tags@).len() implies tag_views(tags@)[k]
            != tag@ by {
            assert(tag_views(tags@)[k] == tags@[k]@);
        }
    }
    false
}

/// If one of the first `n` items carries a tag, the tag is among those of
/// any longer prefix.
proof fn lemma_tagged_among(items: Seq<GraphicItemView>, i: int, n: int, tag: Seq<char>)
    requires
        0 <= i < n,
        carries(items[i], tag),
    ensures
        tagged_among(items, n, tag),
    decreases n,
{
    if i < n - 1 {
        lemma_tagged_among(items, i, n - 1, tag);
    }
}

/// The SVG emitter.
pub struct SvgBuilder {}

impl SvgBuilder {
    pub fn new() -> (r: SvgBuilder) {
        SvgBuilder {  }
    }

    /// Builds the element that draws an item. `defined` holds the tags
    /// that have a definition: a path that refers to another tag cannot be
    /// drawn, and the tag is reported.
    pub fn element(item: &GraphicItem, defined: &Vec<String>) -> (r: Result<
        Element,
        GraphicsError,
    >)
        ensures
            match r {
                Ok(element) => {
                    &&& element@ == element_of(item@)
                    &&& forall|tag: Seq<char>|
                        carries(item@, tag) ==> tag_views(defined@).contains(tag)
                },
                Err(GraphicsError::EmissionFailure(tag)) => {
                    &&& carries(item@, tag@)
                    &&& !tag_views(defined@).contains(tag@)
                },
                Err(_) => false,
            },
    {
        let mut attributes: Vec<Attribute> = Vec::new();
        proof {
            assert(attribute_views(attributes@) =~= Seq::empty());
        }
        match item {
            GraphicItem::Line(x1, y1, x2, y2, stroke) => {
                push_attribute(&mut attributes, "x1", x1.to_string());
                push_attribute(&mut attributes, "y1", y1.to_string());
                push_attribute(&mut attributes, "x2", x2.to_string());
                push_attribute(&mut attributes, "y2", y2.to_string());
                push_stroke(&mut attributes, stroke);
                let element = Element { name: String::from_str("line"), attributes };
                proof {
                    assert(element@.attributes =~= element_of(item@).attributes);
                }
                Ok(element)
            },
            GraphicItem::Rect(x, y, w, h, stroke, fill) => {
                push_attribute(&mut attributes, "x", x.to_string());
                push_attribute(&mut attributes, "y", y.to_string());
                push_attribute(&mut attributes, "width", w.to_string());
                push_attribute(&mut attributes, "height", h.to_string());
                push_stroke(&mut attributes, stroke);
                push_fill(&mut attributes, fill);
                let element = Element { name: String::from_str("rect"), attributes };
                proof {
                    assert(element@.attributes =~= element_of(item@).attributes);
                }
                Ok(element)
            },
            GraphicItem::Ellipse(x, y, w, h, stroke, fill) => {
                push_attribute(&mut attributes, "cx", x.plus(w.half()).to_string());
                push_attribute(&mut attributes, "cy", y.plus(h.half()).to_string());
                push_attribute(&mut attributes, "rx", w.half().to_string());
                push_attribute(&mut attributes, "ry", h.half().to_string());
                push_stroke(&mut attributes, stroke);
                push_fill(&mut attributes, fill);
                let element = Element { name: String::from_str("ellipse"), attributes };
                proof {
                    assert(element@.attributes =~= element_of(item@).attributes);
                }
                Ok(element)
            },
            GraphicItem::Path(path, stroke, fill, PathCacheInfo::NoCache) => {
                push_attribute(&mut attributes, "d", path.to_string());
                push_stroke(&mut attributes, stroke);
                push_fill(&mut attributes, fill);
                let element = Element { name: String::from_str("path"), attributes };
                proof {
                    assert(element@.attributes =~= element_of(item@).attributes);
                }
                Ok(element)
            },
            GraphicItem::Path(_, stroke, fill, PathCacheInfo::Cache(tag, x, y)) => {
                if !knows(defined, tag) {
                    return Err(GraphicsError::EmissionFailure(tag.clone()));
                }
                let mut href = String::from_str("#");
                href.append(tag.as_str());
                push_attribute(&mut attributes, "href", href);
                push_attribute(&mut attributes, "x", x.to_string());
                push_attribute(&mut attributes, "y", y.to_string());
                push_stroke(&mut attributes, stroke);
                push_fill(&mut attributes, fill);
                let element = Element { name: String::from_str("use"), attributes };
                proof {
                    assert(element@.attributes =~= element_of(item@).attributes);
                }
                Ok(element)
            },
        }
    }

    /// Collects the definitions of the shared paths of a drawing: for each
    /// tag, one definition from the first item that carries the tag.
    /// Returns the definitions and the tags that they define.
    pub fn definitions(items: &GraphicItems) -> (r: (Vec<Element>, Vec<String>))
        ensures
            element_views(r.0@) == definitions(items@, items@.len() as int),
            forall|tag: Seq<char>|
                tag_views(r.1@).contains(tag) <==> tagged_among(items@, items@.len() as int, tag),
    {
        let mut elements: Vec<Element> = Vec::new();
        let mut tags: Vec<String> = Vec::new();
        let mut i: usize = 0;
        proof {
            assert(element_views(elements@) =~= definitions(items@, 0));
            assert forall|tag: Seq<char>| !tag_views(tags@).contains(tag) by {
                assert(tag_views(tags@).len() == 0);
            }
        }
        while i < items.0.len()
            invariant
                i <= items.0.len(),
                items@.len() == items.0@.len(),
                element_views(elements@) == definitions(items@, i as int),
                forall|tag: Seq<char>|
                    tag_views(tags@).contains(tag) <==> tagged_among(items@, i as int, tag),
            decreases items.0.len() - i,
        {
            let ghost before = tag_views(tags@);
            let ghost before_elements = element_views(elements@);
            match &items.0[i] {
                GraphicItem::Path(path, _, _, PathCacheInfo::Cache(tag, _, _)) => {
                    if !knows(&tags, tag) {
                        let mut attributes: Vec<Attribute> = Vec::new();
                        proof {
                            assert(attribute_views(attributes@) =~= Seq::empty());
                        }
                        push_attribute(&mut attributes, "id", tag.clone());
                        push_attribute(&mut attributes, "d", path.to_string());
                        let element = Element { name: String::from_str("path"), attributes };
                        proof {
                            assert(element@.attributes =~= definition_of(items@[i as int]).attributes);
                        }
                        elements.push(element);
                        tags.push(tag.clone());
                        proof {
                            assert(tag_views(tags@) =~= before.push(tag@));
                            assert(element_views(elements@) =~= before_elements.push(
                                definition_of(items@[i as int]),
                            ));
                        }
                    }
                    proof {
                        assert forall|t: Seq<char>|
                            tag_views(tags@).contains(t) <==> tagged_among(
                                items@,
                                i as int + 1,
                                t,
                            ) by {
                            if before.contains(t) {
                                let k = choose|k: int| 0 <= k < before.len() && before[k] == t;
                                assert(tag_views(tags@)[k] == t);
                            }
                            if t == tag@ {
                                if !before.contains(tag@) {
                                    assert(tag_views(tags@)[before.len() as int] == tag@);
                                }
                            }
                            if tag_views(tags@).contains(t) && t != tag@ {
                                let k = choose|k: int|
                                    0 <= k < tag_views(tags@).len() && tag_views(tags@)[k] == t;
                                assert(before[k] == t);
                            }
                        }
                    }
                },
                _ => {},
            }
            i += 1;
        }
        (elements, tags)
    }

    /// Builds the document model of a drawing at the origin whose bounding
    /// box, before it was brought there, was `bbox`.
    pub fn document(items: &GraphicItems, bbox: Rectangle, options: Option<BuilderOptions>) -> (r:
        SvgDocument)
        ensures
            r@ == svg_document(items@, bbox, options),
    {
        let width = bbox.2.plus(bbox.0.negated());
        let height = bbox.3.plus(bbox.1.negated());
        let mut attributes: Vec<Attribute> = Vec::new();
        proof {
            assert(attribute_views(attributes@) =~= Seq::empty());
        }
        push_attribute(&mut attributes, "xmlns", String::from_str("http://www.w3.org/2000/svg"));
        push_attribute(
            &mut attributes,
            "xmlns:xlink",
            String::from_str("http://www.w3.org/1999/xlink"),
        );
        push_attribute(&mut attributes, "width", size_string(width, options));
        push_attribute(&mut attributes, "height", size_string(height, options));
        let mut view_box = String::from_str("0 0 ");
        view_box.append(width.to_string().as_str());
        view_box.append(" ");
        view_box.append(height.to_string().as_str());
        push_attribute(&mut attributes, "viewBox", view_box);
        proof {
            assert(attribute_views(attributes@) =~= root_attributes(bbox, options));
        }
        let (definitions, tags) = SvgBuilder::definitions(items);
        let mut shapes: Vec<Element> = Vec::new();
        let mut i: usize = 0;
        while i < items.0.len()
            invariant
                i <= items.0.len(),
                items@.len() == items.0@.len(),
                shapes@.len() == i,
                forall|k: int| 0 <= k < i ==> (#[trigger] shapes@[k])@ == element_of(items@[k]),
                forall|tag: Seq<char>|
                    tag_views(tags@).contains(tag) <==> tagged_among(
                        items@,
                        items@.len() as int,
                        tag,
                    ),
            decreases items.0.len() - i,
        {
            match SvgBuilder::element(&items.0[i], &tags) {
                Ok(element) => {
                    shapes.push(element);
                },
                Err(GraphicsError::EmissionFailure(tag)) => {
                    proof {
                        lemma_tagged_among(items@, i as int, items@.len() as int, tag@);
                    }
                    assert(false);
                },
                Err(_) => {
                    assert(false);
                },
            }
            i += 1;
        }
        let mut frame_attributes: Vec<Attribute> = Vec::new();
        proof {
            assert(attribute_views(frame_attributes@) =~= Seq::empty());
        }
        push_attribute(&mut frame_attributes, "x", String::from_str("0"));
        push_attribute(&mut frame_attributes, "y", String::from_str("0"));
        push_attribute(&mut frame_attributes, "width", width.to_string());
        push_attribute(&mut frame_attributes, "height", height.to_string());
        push_attribute(&mut frame_attributes, "stroke", String::from_str("transparent"));
        push_attribute(&mut frame_attributes, "stroke-width", String::from_str("1"));
        push_attribute(&mut frame_attributes, "fill", String::from_str("none"));
        let frame = Element { name: String::from_str("rect"), attributes: frame_attributes };
        proof {
            assert(frame@.attributes =~= frame_of(bbox).attributes);
        }
        let r = SvgDocument { attributes, definitions, shapes, frame };
        proof {
            assert(r@.shapes =~= svg_document(items@, bbox, options).shapes);
        }
        r
    }
}

/// States a width or height as the options ask.
fn size_string(extent: Scalar, options: Option<BuilderOptions>) -> (r: String)
    ensures
        r@ == size_text(extent, options),
{
    match options {
        Some(o) => {
            let mut out = extent.times(o.size_scaling).round2().to_string();
            match o.size_unit {
                SizeUnit::Pixel => {},
                SizeUnit::Rem => {
                    out.append("rem");
                },
            }
            proof {
                assert(out@ =~= size_text(extent, options));
            }
            out
        },
        None => extent.to_string(),
    }
}

/// Hands the attributes of an open tag to a writer.
fn write_attributes(w: &mut xmlwriter::XmlWriter, attributes: &Vec<Attribute>)
    requires
        in_tag(xml_calls(*old(w))),
    ensures
        xml_calls(*final(w)) == xml_calls(*old(w)) + attribute_calls(attribute_views(attributes@)),
        in_tag(xml_calls(*final(w))),
{
    let mut i: usize = 0;
    proof {
        assert(xml_calls(*w) =~= xml_calls(*old(w)) + attribute_calls(
            attribute_views(attributes@.take(0)),
        ));
    }
    while i < attributes.len()
        invariant
            i <= attributes.len(),
            in_tag(xml_calls(*w)),
            xml_calls(*w) == xml_calls(*old(w)) + attribute_calls(
                attribute_views(attributes@.take(i as int)),
            ),
        decreases attributes.len() - i,
    {
        xml_attribute(w, attributes[i].name.as_str(), attributes[i].value.as_str());
        i += 1;
        proof {
            assert(xml_calls(*w) =~= xml_calls(*old(w)) + attribute_calls(
                attribute_views(attributes@.take(i as int)),
            ));
        }
    }
    proof {
        assert(attributes@.take(i as int) =~= attributes@);
    }
}

/// Hands one element to a writer.
fn write_element(w: &mut xmlwriter::XmlWriter, element: &Element)
    ensures
        xml_calls(*final(w)) == xml_calls(*old(w)) + element_calls(element@),
{
    xml_start(w, element.name.as_str());
    write_attributes(w, &element.attributes);
    xml_end(w);
    proof {
        assert(xml_calls(*w) =~= xml_calls(*old(w)) + element_calls(element@));
    }
}

/// Hands a list of elements to a writer, in their order.
fn write_elements(w: &mut xmlwriter::XmlWriter, elements: &Vec<Element>)
    ensures
        xml_calls(*final(w)) == xml_calls(*old(w)) + elements_calls(element_views(elements@)),
{
    let mut i: usize = 0;
    proof {
        assert(xml_calls(*w) =~= xml_calls(*old(w)) + elements_calls(
            element_views(elements@.take(0)),
        ));
    }
    while i < elements.len()
        invariant
            i <= elements.len(),
            xml_calls(*w) == xml_calls(*old(w)) + elements_calls(
                element_views(elements@.take(i as int)),
            ),
        decreases elements.len() - i,
    {
        write_element(w, &elements[i]);
        proof {
            let longer = element_views(elements@.take(i as int + 1));
            assert(longer.drop_last() =~= element_views(elements@.take(i as int)));
            assert(longer.last() == elements@[i as int]@);
            assert(xml_calls(*w) =~= xml_calls(*old(w)) + elements_calls(longer));
        }
        i += 1;
    }
    proof {
        assert(elements@.take(i as int) =~= elements@);
    }
}

impl SvgDocument {
    /// Writes the document out: the text that an XML writer with default
    /// options gives for the calls that the document stands for.
    pub fn render(&self) -> (r: String)
        ensures
            r@ == xml_document(document_calls(self@)),
    {
        let mut w = xml_new();
        xml_start(&mut w, "svg");
        write_attributes(&mut w, &self.attributes);
        xml_start(&mut w, "defs");
        xml_attribute(&mut w, "visibility", "hidden");
        write_elements(&mut w, &self.definitions);
        xml_end(&mut w);
        write_elements(&mut w, &self.shapes);
        write_element(&mut w, &self.frame);
        proof {
            assert(xml_calls(w) =~= document_calls(self@));
        }
        xml_finish(w)
    }
}

impl GraphicBuilder for SvgBuilder {
    /// The SVG document of a drawing.
    open spec fn emission(
        &self,
        items: Seq<GraphicItemView>,
        bbox: Rectangle,
        options: Option<BuilderOptions>,
    ) -> Seq<char> {
        xml_document(document_calls(svg_document(items, bbox, options)))
    }

    /// Emits a drawing as an SVG document. This never fails: every tag
    /// that a path refers to has its definition in the same drawing.
    fn build(&mut self, items: GraphicItems, options: Option<BuilderOptions>) -> (r: Result<
        String,
        GraphicsError,
    >)
        ensures
            r is Ok,
    {
        let (items, bbox) = normalize(items);
        let document = SvgBuilder::document(&items, bbox, options);
        Ok(document.render())
    }
}

} // verus!
