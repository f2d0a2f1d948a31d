//! The scene-document codec.
//!
//! A saved scene is a tree of plain document values — scalars, counts,
//! text, sequences and name-keyed records — that mirrors the geometry,
//! material and texture unions one to one, each enum variant tagged by a
//! record whose single field carries the variant's name.  The encoder
//! writes that tree; the decoder reads it back, and its contract states
//! the round trip exactly: a document that is the encoding of a saved
//! configuration decodes to that configuration.  Rendering the tree as
//! YAML text (and parsing it back to this tree) is plain I/O and lives
//! with the unverified front end.

use crate::aabb::AxisAlignedBoundingBox;
use crate::background::Background;
use crate::camera::CameraSave;
use crate::colour::Colour;
use crate::config::{ConfigSave, ConfigSaveView};
use crate::geometry::{
    geometries_view, geometry_view, lemma_geometries_view_len, BoundingVolumeHierarchyNode,
    ConstantMedium, Cube, FlipNormals, Geometry, GeometryView, MovingSphere, RotateY, Sphere,
    Translate, XyRect, XzRect, YzRect,
};
use crate::materials::{Material, MaterialView};
use crate::scalar::Real64;
use crate::texture::{NoiseConfig, NoiseConfigView, Texture, TextureView};
use crate::vector::Vector;
use crate::world::{WorldSave, WorldSaveView};
use vstd::prelude::*;

verus! {

/// A malformed scene document.
#[derive(Debug, PartialEq, Eq, Structural)]
pub struct DocError {}

impl DocError {
    /// The error rendered as a line of text.
    pub fn message(&self) -> String {
        "malformed scene document".to_owned()
    }
}

/// One named field of a document record.
#[derive(Debug, PartialEq)]
pub struct DocField {
    pub name: String,
    pub value: DocValue,
}

/// A plain document value.
#[derive(Debug, PartialEq)]
pub enum DocValue {
    /// A numeric scalar (an IEEE-754 double bit pattern).
    Scalar(Real64),
    /// An unsigned integer.
    Count(u64),
    /// A piece of text.
    Text(String),
    /// An ordered list of values.
    Sequence(Vec<DocValue>),
    /// Named fields in a fixed order.
    Record(Vec<DocField>),
    /// An absent value.
    Nothing,
}

/// Ghost image of a [`DocField`].
pub ghost struct DocFieldView {
    pub name: Seq<char>,
    pub value: DocView,
}

/// Ghost image of a [`DocValue`].
pub ghost enum DocView {
    Scalar(Real64),
    Count(u64),
    Text(Seq<char>),
    Sequence(Seq<DocView>),
    Record(Seq<DocFieldView>),
    Nothing,
}

/// The ghost image of a document value.
pub open spec fn doc_view(d: DocValue) -> DocView
    decreases d,
{
    match d {
        DocValue::Scalar(s) => DocView::Scalar(s),
        DocValue::Count(c) => DocView::Count(c),
        DocValue::Text(t) => DocView::Text(t@),
        DocValue::Sequence(items) => DocView::Sequence(docs_view(items@)),
        DocValue::Record(fields) => DocView::Record(fields_view(fields@)),
        DocValue::Nothing => DocView::Nothing,
    }
}

/// The ghost images of a sequence of document values, elementwise.
pub open spec fn docs_view(s: Seq<DocValue>) -> Seq<DocView>
    decreases s,
{
    if s.len() == 0 {
        Seq::empty()
    } else {
        docs_view(s.drop_last()).push(doc_view(s.last()))
    }
}

/// The ghost images of a sequence of record fields, elementwise.
pub open spec fn fields_view(s: Seq<DocField>) -> Seq<DocFieldView>
    decreases s,
{
    if s.len() == 0 {
        Seq::empty()
    } else {
        fields_view(s.drop_last()).push(
            DocFieldView { name: s.last().name@, value: doc_view(s.last().value) },
        )
    }
}

impl View for DocValue {
    type V = DocView;

    open spec fn view(&self) -> DocView {
        doc_view(*self)
    }
}

/// The image of a document sequence keeps its length and maps elements.
pub proof fn lemma_docs_view_len(s: Seq<DocValue>)
    ensures
        docs_view(s).len() == s.len(),
        forall|i: int| 0 <= i < s.len() ==> docs_view(s)[i] == doc_view(s[i]),
    decreases s,
{
    if s.len() > 0 {
        lemma_docs_view_len(s.drop_last());
    }
}

/// Appending a value appends its ghost image.
pub proof fn lemma_docs_view_push(s: Seq<DocValue>, d: DocValue)
    ensures
        docs_view(s.push(d)) == docs_view(s).push(doc_view(d)),
{
    assert(s.push(d).drop_last() =~= s);
    assert(s.push(d).last() == d);
}

/// The image of a field sequence keeps its length and maps elements.
pub proof fn lemma_fields_view_len(s: Seq<DocField>)
    ensures
        fields_view(s).len() == s.len(),
        forall|i: int|
            0 <= i < s.len() ==> fields_view(s)[i] == (DocFieldView {
                name: s[i].name@,
                value: doc_view(s[i].value),
            }),
    decreases s,
{
    if s.len() > 0 {
        lemma_fields_view_len(s.drop_last());
    }
}

/// One record field, its name copied from a literal.
fn field(name: &str, value: DocValue) -> (r: DocField)
    ensures
        r.name@ == name@,
        r.value == value,
{
    DocField { name: name.to_owned(), value }
}

/// A record of one field.
pub(crate) fn record1(n1: &str, v1: DocValue) -> (r: DocValue)
    ensures
        r@ == DocView::Record(seq![DocFieldView { name: n1@, value: v1@ }]),
{
    let mut fields: Vec<DocField> = Vec::new();
    fields.push(field(n1, v1));
    proof {
        lemma_fields_view_len(fields@);
        assert(fields_view(fields@) =~= seq![
            DocFieldView { name: n1@, value: doc_view(fields@[0].value) },
        ]);
    }
    DocValue::Record(fields)
}

/// A record of two fields.
pub(crate) fn record2(n1: &str, v1: DocValue, n2: &str, v2: DocValue) -> (r: DocValue)
    ensures
        r@ == DocView::Record(
            seq![
                DocFieldView { name: n1@, value: v1@ },
                DocFieldView { name: n2@, value: v2@ },
            ],
        ),
{
    let ghost value1 = v1@;
    let ghost value2 = v2@;
    let mut fields: Vec<DocField> = Vec::new();
    fields.push(field(n1, v1));
    fields.push(field(n2, v2));
    proof {
        lemma_fields_view_len(fields@);
        assert(fields_view(fields@) =~= seq![
            DocFieldView { name: n1@, value: value1 },
            DocFieldView { name: n2@, value: value2 },
        ]);
    }
    DocValue::Record(fields)
}

/// A record of three fields.
pub(crate) fn record3(
    n1: &str,
    v1: DocValue,
    n2: &str,
    v2: DocValue,
    n3: &str,
    v3: DocValue,
) -> (r: DocValue)
    ensures
        r@ == DocView::Record(
            seq![
                DocFieldView { name: n1@, value: v1@ },
                DocFieldView { name: n2@, value: v2@ },
                DocFieldView { name: n3@, value: v3@ },
            ],
        ),
{
    let ghost value1 = v1@;
    let ghost value2 = v2@;
    let ghost value3 = v3@;
    let mut fields: Vec<DocField> = Vec::new();
    fields.push(field(n1, v1));
    fields.push(field(n2, v2));
    fields.push(field(n3, v3));
    proof {
        lemma_fields_view_len(fields@);
        assert(fields_view(fields@) =~= seq![
            DocFieldView { name: n1@, value: value1 },
            DocFieldView { name: n2@, value: value2 },
            DocFieldView { name: n3@, value: value3 },
        ]);
    }
    DocValue::Record(fields)
}

/// A record of 4 fields.
pub(crate) fn record4(
    n1: &str,
    v1: DocValue,
    n2: &str,
    v2: DocValue,
    n3: &str,
    v3: DocValue,
    n4: &str,
    v4: DocValue,
) -> (r: DocValue)
    ensures
        r@ == DocView::Record(
            seq![
                DocFieldView { name: n1@, value: v1@ },
                DocFieldView { name: n2@, value: v2@ },
                DocFieldView { name: n3@, value: v3@ },
                DocFieldView { name: n4@, value: v4@ },
            ],
        ),
{
    let ghost value1 = v1@;
    let ghost value2 = v2@;
    let ghost value3 = v3@;
    let ghost value4 = v4@;
    let mut fields: Vec<DocField> = Vec::new();
    fields.push(field(n1, v1));
    fields.push(field(n2, v2));
    fields.push(field(n3, v3));
    fields.push(field(n4, v4));
    proof {
        lemma_fields_view_len(fields@);
        assert(fields_view(fields@) =~= seq![
            DocFieldView { name: n1@, value: value1 },
            DocFieldView { name: n2@, value: value2 },
            DocFieldView { name: n3@, value: value3 },
            DocFieldView { name: n4@, value: value4 },
        ]);
    }
    DocValue::Record(fields)
}

/// A record of 6 fields.
pub(crate) fn record6(
    n1: &str,
    v1: DocValue,
    n2: &str,
    v2: DocValue,
    n3: &str,
    v3: DocValue,
    n4: &str,
    v4: DocValue,
    n5: &str,
    v5: DocValue,
    n6: &str,
    v6: DocValue,
) -> (r: DocValue)
    ensures
        r@ == DocView::Record(
            seq![
                DocFieldView { name: n1@, value: v1@ },
                DocFieldView { name: n2@, value: v2@ },
                DocFieldView { name: n3@, value: v3@ },
                DocFieldView { name: n4@, value: v4@ },
                DocFieldView { name: n5@, value: v5@ },
                DocFieldView { name: n6@, value: v6@ },
            ],
        ),
{
    let ghost value1 = v1@;
    let ghost value2 = v2@;
    let ghost value3 = v3@;
    let ghost value4 = v4@;
    let ghost value5 = v5@;
    let ghost value6 = v6@;
    let mut fields: Vec<DocField> = Vec::new();
    fields.push(field(n1, v1));
    fields.push(field(n2, v2));
    fields.push(field(n3, v3));
    fields.push(field(n4, v4));
    fields.push(field(n5, v5));
    fields.push(field(n6, v6));
    proof {
        lemma_fields_view_len(fields@);
        assert(fields_view(fields@) =~= seq![
            DocFieldView { name: n1@, value: value1 },
            DocFieldView { name: n2@, value: value2 },
            DocFieldView { name: n3@, value: value3 },
            DocFieldView { name: n4@, value: value4 },
            DocFieldView { name: n5@, value: value5 },
            DocFieldView { name: n6@, value: value6 },
        ]);
    }
    DocValue::Record(fields)
}

/// A record of 9 fields.
pub(crate) fn record9(
    n1: &str,
    v1: DocValue,
    n2: &str,
    v2: DocValue,
    n3: &str,
    v3: DocValue,
    n4: &str,
    v4: DocValue,
    n5: &str,
    v5: DocValue,
    n6: &str,
    v6: DocValue,
    n7: &str,
    v7: DocValue,
    n8: &str,
    v8: DocValue,
    n9: &str,
    v9: DocValue,
) -> (r: DocValue)
    ensures
        r@ == DocView::Record(
            seq![
                DocFieldView { name: n1@, value: v1@ },
                DocFieldView { name: n2@, value: v2@ },
                DocFieldView { name: n3@, value: v3@ },
                DocFieldView { name: n4@, value: v4@ },
                DocFieldView { name: n5@, value: v5@ },
                DocFieldView { name: n6@, value: v6@ },
                DocFieldView { name: n7@, value: v7@ },
                DocFieldView { name: n8@, value: v8@ },
                DocFieldView { name: n9@, value: v9@ },
            ],
        ),
{
    let ghost value1 = v1@;
    let ghost value2 = v2@;
    let ghost value3 = v3@;
    let ghost value4 = v4@;
    let ghost value5 = v5@;
    let ghost value6 = v6@;
    let ghost value7 = v7@;
    let ghost value8 = v8@;
    let ghost value9 = v9@;
    let mut fields: Vec<DocField> = Vec::new();
    fields.push(field(n1, v1));
    fields.push(field(n2, v2));
    fields.push(field(n3, v3));
    fields.push(field(n4, v4));
    fields.push(field(n5, v5));
    fields.push(field(n6, v6));
    fields.push(field(n7, v7));
    fields.push(field(n8, v8));
    fields.push(field(n9, v9));
    proof {
        lemma_fields_view_len(fields@);
        assert(fields_view(fields@) =~= seq![
            DocFieldView { name: n1@, value: value1 },
            DocFieldView { name: n2@, value: value2 },
            DocFieldView { name: n3@, value: value3 },
            DocFieldView { name: n4@, value: value4 },
            DocFieldView { name: n5@, value: value5 },
            DocFieldView { name: n6@, value: value6 },
            DocFieldView { name: n7@, value: value7 },
            DocFieldView { name: n8@, value: value8 },
            DocFieldView { name: n9@, value: value9 },
        ]);
    }
    DocValue::Record(fields)
}

/// Reads field `i` of a record, which must carry the expected name.
pub(crate) fn get_field<'a>(fields: &'a Vec<DocField>, i: usize, name: &str) -> (r: Result<
    &'a DocValue,
    DocError,
>)
    ensures
        match r {
            Ok(v) => {
                &&& i < fields@.len()
                &&& fields_view(fields@)[i as int].name == name@
                &&& v == fields@[i as int].value
                &&& v@ == fields_view(fields@)[i as int].value
            },
            Err(_) => !(i < fields@.len() && fields_view(fields@)[i as int].name == name@),
        },
{
    proof {
        lemma_fields_view_len(fields@);
    }
    if i >= fields.len() {
        return Err(DocError {});
    }
    if !crate::text::str_eq(fields[i].name.as_str(), name) {
        return Err(DocError {});
    }
    Ok(&fields[i].value)
}


/// The document image of a vector.
pub open spec fn spec_doc_vector(v: Vector) -> DocView {
    DocView::Record(
        seq![
            DocFieldView { name: "x"@, value: DocView::Scalar(v.x) },
            DocFieldView { name: "y"@, value: DocView::Scalar(v.y) },
            DocFieldView { name: "z"@, value: DocView::Scalar(v.z) },
        ],
    )
}

/// The document image of a colour.
pub open spec fn spec_doc_colour(c: Colour) -> DocView {
    DocView::Record(
        seq![
            DocFieldView { name: "r"@, value: DocView::Scalar(c.r) },
            DocFieldView { name: "g"@, value: DocView::Scalar(c.g) },
            DocFieldView { name: "b"@, value: DocView::Scalar(c.b) },
        ],
    )
}

/// The document image of a background gradient.
pub open spec fn spec_doc_background(b: Background) -> DocView {
    DocView::Record(
        seq![
            DocFieldView { name: "top"@, value: spec_doc_colour(b.top) },
            DocFieldView { name: "bottom"@, value: spec_doc_colour(b.bottom) },
        ],
    )
}

/// The document image of a saved camera.
pub open spec fn spec_doc_camera(c: CameraSave) -> DocView {
    DocView::Record(
        seq![
            DocFieldView { name: "look_from"@, value: spec_doc_vector(c.look_from) },
            DocFieldView { name: "look_at"@, value: spec_doc_vector(c.look_at) },
            DocFieldView { name: "view_up"@, value: spec_doc_vector(c.view_up) },
            DocFieldView { name: "vertical_fov"@, value: DocView::Scalar(c.vertical_fov) },
            DocFieldView { name: "aspect"@, value: DocView::Scalar(c.aspect) },
            DocFieldView { name: "aperture"@, value: DocView::Scalar(c.aperture) },
            DocFieldView { name: "focus_distance"@, value: DocView::Scalar(c.focus_distance) },
            DocFieldView { name: "time_start"@, value: DocView::Scalar(c.time_start) },
            DocFieldView { name: "time_end"@, value: DocView::Scalar(c.time_end) },
        ],
    )
}

/// The document image of a bounding box.
pub open spec fn spec_doc_aabb(b: AxisAlignedBoundingBox) -> DocView {
    DocView::Record(
        seq![
            DocFieldView { name: "min"@, value: spec_doc_vector(b.min) },
            DocFieldView { name: "max"@, value: spec_doc_vector(b.max) },
        ],
    )
}

/// The document images of a list of colours.
pub open spec fn spec_doc_colours(s: Seq<Colour>) -> Seq<DocView> {
    s.map_values(|c: Colour| spec_doc_colour(c))
}

/// The document images of a list of table indices.
pub open spec fn spec_doc_counts(s: Seq<usize>) -> Seq<DocView> {
    s.map_values(|u: usize| DocView::Count(u as u64))
}

/// The document image of a Perlin-noise table.
pub open spec fn spec_doc_noise_config(n: NoiseConfigView) -> DocView {
    DocView::Record(
        seq![
            DocFieldView { name: "ran"@, value: DocView::Sequence(spec_doc_colours(n.ran)) },
            DocFieldView { name: "perm_x"@, value: DocView::Sequence(spec_doc_counts(n.perm_x)) },
            DocFieldView { name: "perm_y"@, value: DocView::Sequence(spec_doc_counts(n.perm_y)) },
            DocFieldView { name: "perm_z"@, value: DocView::Sequence(spec_doc_counts(n.perm_z)) },
        ],
    )
}

/// The document image of a texture: the variant's name tags its fields.
pub open spec fn spec_doc_texture(t: TextureView) -> DocView
    decreases t,
{
    match t {
        TextureView::Constant { colour } => DocView::Record(
            seq![
                DocFieldView {
                    name: "Constant"@,
                    value: DocView::Record(
                        seq![DocFieldView { name: "colour"@, value: spec_doc_colour(colour) }],
                    ),
                },
            ],
        ),
        TextureView::Checker { even, odd } => DocView::Record(
            seq![
                DocFieldView {
                    name: "Checker"@,
                    value: DocView::Record(
                        seq![
                            DocFieldView { name: "even"@, value: spec_doc_texture(*even) },
                            DocFieldView { name: "odd"@, value: spec_doc_texture(*odd) },
                        ],
                    ),
                },
            ],
        ),
        TextureView::Noise { base_colour, scale, noisiness, noise_config } => DocView::Record(
            seq![
                DocFieldView {
                    name: "Noise"@,
                    value: DocView::Record(
                        seq![
                            DocFieldView {
                                name: "base_colour"@,
                                value: spec_doc_colour(base_colour),
                            },
                            DocFieldView { name: "scale"@, value: DocView::Scalar(scale) },
                            DocFieldView { name: "noisiness"@, value: DocView::Scalar(noisiness) },
                            DocFieldView {
                                name: "noise_config"@,
                                value: spec_doc_noise_config(noise_config),
                            },
                        ],
                    ),
                },
            ],
        ),
        TextureView::Image { asset_name } => DocView::Record(
            seq![
                DocFieldView {
                    name: "Image"@,
                    value: DocView::Record(
                        seq![DocFieldView { name: "asset_name"@, value: DocView::Text(asset_name) }],
                    ),
                },
            ],
        ),
    }
}

/// The document image of a material: the variant's name tags its fields.
pub open spec fn spec_doc_material(m: MaterialView) -> DocView {
    match m {
        MaterialView::Lambertian { albedo } => DocView::Record(
            seq![
                DocFieldView {
                    name: "Lambertian"@,
                    value: DocView::Record(
                        seq![DocFieldView { name: "albedo"@, value: spec_doc_texture(albedo) }],
                    ),
                },
            ],
        ),
        MaterialView::Metal { albedo, fuzz } => DocView::Record(
            seq![
                DocFieldView {
                    name: "Metal"@,
                    value: DocView::Record(
                        seq![
                            DocFieldView { name: "albedo"@, value: spec_doc_colour(albedo) },
                            DocFieldView { name: "fuzz"@, value: DocView::Scalar(fuzz) },
                        ],
                    ),
                },
            ],
        ),
        MaterialView::Dielectric { refractive_index } => DocView::Record(
            seq![
                DocFieldView {
                    name: "Dielectric"@,
                    value: DocView::Record(
                        seq![
                            DocFieldView {
                                name: "refractive_index"@,
                                value: DocView::Scalar(refractive_index),
                            },
                        ],
                    ),
                },
            ],
        ),
        MaterialView::DiffuseLight { emit } => DocView::Record(
            seq![
                DocFieldView {
                    name: "DiffuseLight"@,
                    value: DocView::Record(
                        seq![DocFieldView { name: "emit"@, value: spec_doc_texture(emit) }],
                    ),
                },
            ],
        ),
        MaterialView::Isotropic { albedo } => DocView::Record(
            seq![
                DocFieldView {
                    name: "Isotropic"@,
                    value: DocView::Record(
                        seq![DocFieldView { name: "albedo"@, value: spec_doc_texture(albedo) }],
                    ),
                },
            ],
        ),
    }
}

/// The payload of an encoded hierarchy node: the already-encoded
/// children (or nothing) and the cached box.
pub open spec fn spec_doc_bvh_payload(
    left_doc: DocView,
    right_doc: DocView,
    bounding_box: AxisAlignedBoundingBox,
) -> DocView {
    DocView::Record(
        seq![
            DocFieldView { name: "left"@, value: left_doc },
            DocFieldView { name: "right"@, value: right_doc },
            DocFieldView { name: "bounding_box"@, value: spec_doc_aabb(bounding_box) },
        ],
    )
}

/// The payload of an encoded sphere.
pub open spec fn spec_doc_sphere_payload(
    centre: Vector,
    radius: Real64,
    material: MaterialView,
) -> DocView {
    DocView::Record(
        seq![
            DocFieldView { name: "centre"@, value: spec_doc_vector(centre) },
            DocFieldView { name: "radius"@, value: DocView::Scalar(radius) },
            DocFieldView { name: "material"@, value: spec_doc_material(material) },
        ],
    )
}

/// The payload of an encoded moving sphere.
pub open spec fn spec_doc_moving_sphere_payload(
    centre_start: Vector,
    time_start: Real64,
    centre_end: Vector,
    time_end: Real64,
    radius: Real64,
    material: MaterialView,
) -> DocView {
    DocView::Record(
        seq![
            DocFieldView { name: "centre_start"@, value: spec_doc_vector(centre_start) },
            DocFieldView { name: "time_start"@, value: DocView::Scalar(time_start) },
            DocFieldView { name: "centre_end"@, value: spec_doc_vector(centre_end) },
            DocFieldView { name: "time_end"@, value: DocView::Scalar(time_end) },
            DocFieldView { name: "radius"@, value: DocView::Scalar(radius) },
            DocFieldView { name: "material"@, value: spec_doc_material(material) },
        ],
    )
}

/// The payload of an encoded cube: the already-encoded faces and the two
/// corners.
pub open spec fn spec_doc_cube_payload(
    rectangles_docs: Seq<DocView>,
    pmin: Vector,
    pmax: Vector,
) -> DocView {
    DocView::Record(
        seq![
            DocFieldView { name: "rectangles"@, value: DocView::Sequence(rectangles_docs) },
            DocFieldView { name: "pmin"@, value: spec_doc_vector(pmin) },
            DocFieldView { name: "pmax"@, value: spec_doc_vector(pmax) },
        ],
    )
}

/// The payload of an encoded medium: the already-encoded boundary, the
/// density and the phase material.
pub open spec fn spec_doc_medium_payload(
    boundary_doc: DocView,
    density: Real64,
    material: MaterialView,
) -> DocView {
    DocView::Record(
        seq![
            DocFieldView { name: "boundary"@, value: boundary_doc },
            DocFieldView { name: "density"@, value: DocView::Scalar(density) },
            DocFieldView { name: "material"@, value: spec_doc_material(material) },
        ],
    )
}

/// The payload of an encoded axis-aligned rectangle, generic over the
/// two line names of its plane.
pub open spec fn spec_doc_rect_payload(
    n0: Seq<char>,
    a0: Real64,
    n1: Seq<char>,
    a1: Real64,
    n2: Seq<char>,
    b0: Real64,
    n3: Seq<char>,
    b1: Real64,
    k: Real64,
    material: MaterialView,
) -> DocView {
    DocView::Record(
        seq![
            DocFieldView { name: n0, value: DocView::Scalar(a0) },
            DocFieldView { name: n1, value: DocView::Scalar(a1) },
            DocFieldView { name: n2, value: DocView::Scalar(b0) },
            DocFieldView { name: n3, value: DocView::Scalar(b1) },
            DocFieldView { name: "k"@, value: DocView::Scalar(k) },
            DocFieldView { name: "material"@, value: spec_doc_material(material) },
        ],
    )
}

/// The payload of an encoded normal-flipping wrapper: the already-encoded
/// inner geometry.
pub open spec fn spec_doc_flip_payload(geometry_doc: DocView) -> DocView {
    DocView::Record(seq![DocFieldView { name: "geometry"@, value: geometry_doc }])
}

/// The payload of an encoded translation wrapper.
pub open spec fn spec_doc_translate_payload(geometry_doc: DocView, offset: Vector) -> DocView {
    DocView::Record(
        seq![
            DocFieldView { name: "geometry"@, value: geometry_doc },
            DocFieldView { name: "offset"@, value: spec_doc_vector(offset) },
        ],
    )
}

/// The payload of an encoded rotation wrapper.
pub open spec fn spec_doc_rotate_payload(geometry_doc: DocView, angle: Real64) -> DocView {
    DocView::Record(
        seq![
            DocFieldView { name: "geometry"@, value: geometry_doc },
            DocFieldView { name: "angle"@, value: DocView::Scalar(angle) },
        ],
    )
}

/// A single-field record tagging a variant payload with its name.
pub open spec fn spec_doc_tagged(tag: Seq<char>, payload: DocView) -> DocView {
    DocView::Record(seq![DocFieldView { name: tag, value: payload }])
}

/// The document image of a geometry: the variant's name tags its fields.
pub open spec fn spec_doc_geometry(g: GeometryView) -> DocView
    decreases g,
{
    match g {
        GeometryView::Bvh { left, right, bounding_box } => {
            let left_doc = match left {
                Some(child) => spec_doc_geometry(*child),
                None => DocView::Nothing,
            };
            let right_doc = match right {
                Some(child) => spec_doc_geometry(*child),
                None => DocView::Nothing,
            };
            spec_doc_tagged("Bvh"@, spec_doc_bvh_payload(left_doc, right_doc, bounding_box))
        },
        GeometryView::Sphere { centre, radius, material } => spec_doc_tagged(
            "Sphere"@,
            spec_doc_sphere_payload(centre, radius, material),
        ),
        GeometryView::MovingSphere {
            centre_start,
            time_start,
            centre_end,
            time_end,
            radius,
            material,
        } => spec_doc_tagged(
            "MovingSphere"@,
            spec_doc_moving_sphere_payload(
                centre_start,
                time_start,
                centre_end,
                time_end,
                radius,
                material,
            ),
        ),
        GeometryView::Cube { rectangles, pmin, pmax } => spec_doc_tagged(
            "Cube"@,
            spec_doc_cube_payload(spec_doc_geometries(rectangles), pmin, pmax),
        ),
        GeometryView::ConstantMedium { boundary, density, material } => spec_doc_tagged(
            "ConstantMedium"@,
            spec_doc_medium_payload(spec_doc_geometry(*boundary), density, material),
        ),
        GeometryView::XyRect { x0, x1, y0, y1, k, material } => spec_doc_tagged(
            "XyRect"@,
            spec_doc_rect_payload("x0"@, x0, "x1"@, x1, "y0"@, y0, "y1"@, y1, k, material),
        ),
        GeometryView::XzRect { x0, x1, z0, z1, k, material } => spec_doc_tagged(
            "XzRect"@,
            spec_doc_rect_payload("x0"@, x0, "x1"@, x1, "z0"@, z0, "z1"@, z1, k, material),
        ),
        GeometryView::YzRect { y0, y1, z0, z1, k, material } => spec_doc_tagged(
            "YzRect"@,
            spec_doc_rect_payload("y0"@, y0, "y1"@, y1, "z0"@, z0, "z1"@, z1, k, material),
        ),
        GeometryView::Flip { geometry } => spec_doc_tagged(
            "Flip"@,
            spec_doc_flip_payload(spec_doc_geometry(*geometry)),
        ),
        GeometryView::Translate { geometry, offset } => spec_doc_tagged(
            "Translate"@,
            spec_doc_translate_payload(spec_doc_geometry(*geometry), offset),
        ),
        GeometryView::RotateY { geometry, angle } => spec_doc_tagged(
            "RotateY"@,
            spec_doc_rotate_payload(spec_doc_geometry(*geometry), angle),
        ),
    }
}

/// The document images of a sequence of geometries, elementwise.
pub open spec fn spec_doc_geometries(s: Seq<GeometryView>) -> Seq<DocView>
    decreases s,
{
    if s.len() == 0 {
        Seq::empty()
    } else {
        spec_doc_geometries(s.drop_last()).push(spec_doc_geometry(s.last()))
    }
}

/// The document image of a saved world.
pub open spec fn spec_doc_world(w: WorldSaveView) -> DocView {
    DocView::Record(
        seq![
            DocFieldView { name: "background"@, value: spec_doc_background(w.background) },
            DocFieldView {
                name: "geometries"@,
                value: DocView::Sequence(spec_doc_geometries(w.geometries)),
            },
        ],
    )
}

/// The document image of a saved configuration.
pub open spec fn spec_doc_config(c: ConfigSaveView) -> DocView {
    DocView::Record(
        seq![
            DocFieldView { name: "aspect"@, value: DocView::Scalar(c.aspect) },
            DocFieldView { name: "camera"@, value: spec_doc_camera(c.camera) },
            DocFieldView { name: "world"@, value: spec_doc_world(c.world) },
        ],
    )
}


/// Encodes a vector.
pub fn encode_vector(v: &Vector) -> (r: DocValue)
    ensures
        r@ == spec_doc_vector(*v),
{
    record3(
        "x",
        DocValue::Scalar(v.x),
        "y",
        DocValue::Scalar(v.y),
        "z",
        DocValue::Scalar(v.z),
    )
}

/// Encodes a colour.
pub fn encode_colour(c: &Colour) -> (r: DocValue)
    ensures
        r@ == spec_doc_colour(*c),
{
    record3(
        "r",
        DocValue::Scalar(c.r),
        "g",
        DocValue::Scalar(c.g),
        "b",
        DocValue::Scalar(c.b),
    )
}

/// Encodes a background gradient.
pub fn encode_background(b: &Background) -> (r: DocValue)
    ensures
        r@ == spec_doc_background(*b),
{
    record2("top", encode_colour(&b.top), "bottom", encode_colour(&b.bottom))
}

/// Encodes a saved camera.
pub fn encode_camera(c: &CameraSave) -> (r: DocValue)
    ensures
        r@ == spec_doc_camera(*c),
{
    record9(
        "look_from",
        encode_vector(&c.look_from),
        "look_at",
        encode_vector(&c.look_at),
        "view_up",
        encode_vector(&c.view_up),
        "vertical_fov",
        DocValue::Scalar(c.vertical_fov),
        "aspect",
        DocValue::Scalar(c.aspect),
        "aperture",
        DocValue::Scalar(c.aperture),
        "focus_distance",
        DocValue::Scalar(c.focus_distance),
        "time_start",
        DocValue::Scalar(c.time_start),
        "time_end",
        DocValue::Scalar(c.time_end),
    )
}

/// Encodes a bounding box.
pub fn encode_aabb(b: &AxisAlignedBoundingBox) -> (r: DocValue)
    ensures
        r@ == spec_doc_aabb(*b),
{
    record2("min", encode_vector(&b.min), "max", encode_vector(&b.max))
}

/// Encodes a list of colours.
#[verifier::loop_isolation(false)]
fn encode_colours(v: &Vec<Colour>) -> (r: DocValue)
    ensures
        r@ == DocView::Sequence(spec_doc_colours(v@)),
{
    let n = v.len();
    let mut items: Vec<DocValue> = Vec::new();
    let mut i: usize = 0;
    while i < n
        invariant
            i <= n,
            docs_view(items@) == spec_doc_colours(v@.subrange(0, i as int)),
        decreases n - i,
    {
        let encoded = encode_colour(&v[i]);
        proof {
            lemma_docs_view_push(items@, encoded);
            assert(spec_doc_colours(v@.subrange(0, i + 1)) =~= spec_doc_colours(
                v@.subrange(0, i as int),
            ).push(spec_doc_colour(v@[i as int])));
        }
        items.push(encoded);
        i = i + 1;
    }
    proof {
        assert(v@.subrange(0, n as int) =~= v@);
    }
    DocValue::Sequence(items)
}

/// Encodes a list of table indices.
#[verifier::loop_isolation(false)]
fn encode_counts(v: &Vec<usize>) -> (r: DocValue)
    ensures
        r@ == DocView::Sequence(spec_doc_counts(v@)),
{
    let n = v.len();
    let mut items: Vec<DocValue> = Vec::new();
    let mut i: usize = 0;
    while i < n
        invariant
            i <= n,
            docs_view(items@) == spec_doc_counts(v@.subrange(0, i as int)),
        decreases n - i,
    {
        let encoded = DocValue::Count(v[i] as u64);
        proof {
            lemma_docs_view_push(items@, encoded);
            assert(spec_doc_counts(v@.subrange(0, i + 1)) =~= spec_doc_counts(
                v@.subrange(0, i as int),
            ).push(DocView::Count(v@[i as int] as u64)));
        }
        items.push(encoded);
        i = i + 1;
    }
    proof {
        assert(v@.subrange(0, n as int) =~= v@);
    }
    DocValue::Sequence(items)
}

/// Encodes a Perlin-noise table.
pub fn encode_noise_config(n: &NoiseConfig) -> (r: DocValue)
    ensures
        r@ == spec_doc_noise_config(n@),
{
    record4(
        "ran",
        encode_colours(&n.ran),
        "perm_x",
        encode_counts(&n.perm_x),
        "perm_y",
        encode_counts(&n.perm_y),
        "perm_z",
        encode_counts(&n.perm_z),
    )
}

/// Encodes a texture.
pub fn encode_texture(t: &Texture) -> (r: DocValue)
    ensures
        r@ == spec_doc_texture(t@),
    decreases *t,
{
    match t {
        Texture::Constant { colour } => record1(
            "Constant",
            record1("colour", encode_colour(colour)),
        ),
        Texture::Checker { even, odd } => record1(
            "Checker",
            record2("even", encode_texture(even), "odd", encode_texture(odd)),
        ),
        Texture::Noise { base_colour, scale, noisiness, noise_config } => record1(
            "Noise",
            record4(
                "base_colour",
                encode_colour(base_colour),
                "scale",
                DocValue::Scalar(*scale),
                "noisiness",
                DocValue::Scalar(*noisiness),
                "noise_config",
                encode_noise_config(noise_config),
            ),
        ),
        Texture::Image { asset_name } => record1(
            "Image",
            record1("asset_name", DocValue::Text(crate::texture::copy_string(asset_name))),
        ),
    }
}

/// Encodes a material.
pub fn encode_material(m: &Material) -> (r: DocValue)
    ensures
        r@ == spec_doc_material(m@),
{
    match m {
        Material::Lambertian { albedo } => record1(
            "Lambertian",
            record1("albedo", encode_texture(albedo)),
        ),
        Material::Metal { albedo, fuzz } => record1(
            "Metal",
            record2("albedo", encode_colour(albedo), "fuzz", DocValue::Scalar(*fuzz)),
        ),
        Material::Dielectric { refractive_index } => record1(
            "Dielectric",
            record1("refractive_index", DocValue::Scalar(*refractive_index)),
        ),
        Material::DiffuseLight { emit } => record1(
            "DiffuseLight",
            record1("emit", encode_texture(emit)),
        ),
        Material::Isotropic { albedo } => record1(
            "Isotropic",
            record1("albedo", encode_texture(albedo)),
        ),
    }
}

/// Encodes a geometry.
#[verifier::loop_isolation(false)]
#[verifier::rlimit(100)]
pub fn encode_geometry(g: &Geometry) -> (r: DocValue)
    ensures
        r@ == spec_doc_geometry(g@),
    decreases *g,
{
    match g {
        Geometry::Bvh(node) => {
            let left_doc = match &node.left {
                Some(child) => encode_geometry(child),
                None => DocValue::Nothing,
            };
            let right_doc = match &node.right {
                Some(child) => encode_geometry(child),
                None => DocValue::Nothing,
            };
            record1(
                "Bvh",
                record3(
                    "left",
                    left_doc,
                    "right",
                    right_doc,
                    "bounding_box",
                    encode_aabb(&node.bounding_box),
                ),
            )
        },
        Geometry::Sphere(sphere) => record1(
            "Sphere",
            record3(
                "centre",
                encode_vector(&sphere.centre),
                "radius",
                DocValue::Scalar(sphere.radius),
                "material",
                encode_material(&sphere.material),
            ),
        ),
        Geometry::MovingSphere(sphere) => record1(
            "MovingSphere",
            record6(
                "centre_start",
                encode_vector(&sphere.centre_start),
                "time_start",
                DocValue::Scalar(sphere.time_start),
                "centre_end",
                encode_vector(&sphere.centre_end),
                "time_end",
                DocValue::Scalar(sphere.time_end),
                "radius",
                DocValue::Scalar(sphere.radius),
                "material",
                encode_material(&sphere.material),
            ),
        ),
        Geometry::Cube(c) => {
            let ghost rectangle_views = geometries_view(c.rectangles@);
            proof {
                lemma_geometries_view_len(c.rectangles@);
            }
            let n = c.rectangles.len();
            let mut items: Vec<DocValue> = Vec::new();
            let mut i: usize = 0;
            while i < n
                invariant
                    i <= n,
                    docs_view(items@) == spec_doc_geometries(rectangle_views.subrange(0, i as int)),
                decreases n - i,
            {
                proof {
                    assert(decreases_to!(*g => (**c).rectangles@));
                    assert(decreases_to!((**c).rectangles@ => (**c).rectangles@[i as int]));
                }
                let encoded = encode_geometry(&c.rectangles[i]);
                proof {
                    lemma_docs_view_push(items@, encoded);
                    assert(rectangle_views.subrange(0, i + 1).drop_last() =~= rectangle_views
                        .subrange(0, i as int));
                    assert(rectangle_views.subrange(0, i + 1).last() == rectangle_views[i as int]);
                }
                items.push(encoded);
                i = i + 1;
            }
            proof {
                assert(rectangle_views.subrange(0, n as int) =~= rectangle_views);
            }
            record1(
                "Cube",
                record3(
                    "rectangles",
                    DocValue::Sequence(items),
                    "pmin",
                    encode_vector(&c.pmin),
                    "pmax",
                    encode_vector(&c.pmax),
                ),
            )
        },
        Geometry::ConstantMedium(m) => record1(
            "ConstantMedium",
            record3(
                "boundary",
                encode_geometry(&m.boundary),
                "density",
                DocValue::Scalar(m.density),
                "material",
                encode_material(&m.material),
            ),
        ),
        Geometry::XyRect(rect) => record1(
            "XyRect",
            record6(
                "x0",
                DocValue::Scalar(rect.x0),
                "x1",
                DocValue::Scalar(rect.x1),
                "y0",
                DocValue::Scalar(rect.y0),
                "y1",
                DocValue::Scalar(rect.y1),
                "k",
                DocValue::Scalar(rect.k),
                "material",
                encode_material(&rect.material),
            ),
        ),
        Geometry::XzRect(rect) => record1(
            "XzRect",
            record6(
                "x0",
                DocValue::Scalar(rect.x0),
                "x1",
                DocValue::Scalar(rect.x1),
                "z0",
                DocValue::Scalar(rect.z0),
                "z1",
                DocValue::Scalar(rect.z1),
                "k",
                DocValue::Scalar(rect.k),
                "material",
                encode_material(&rect.material),
            ),
        ),
        Geometry::YzRect(rect) => record1(
            "YzRect",
            record6(
                "y0",
                DocValue::Scalar(rect.y0),
                "y1",
                DocValue::Scalar(rect.y1),
                "z0",
                DocValue::Scalar(rect.z0),
                "z1",
                DocValue::Scalar(rect.z1),
                "k",
                DocValue::Scalar(rect.k),
                "material",
                encode_material(&rect.material),
            ),
        ),
        Geometry::Flip(f) => record1(
            "Flip",
            record1("geometry", encode_geometry(&f.geometry)),
        ),
        Geometry::Translate(t) => record1(
            "Translate",
            record2(
                "geometry",
                encode_geometry(&t.geometry),
                "offset",
                encode_vector(&t.offset),
            ),
        ),
        Geometry::RotateY(rot) => record1(
            "RotateY",
            record2(
                "geometry",
                encode_geometry(&rot.geometry),
                "angle",
                DocValue::Scalar(rot.angle),
            ),
        ),
    }
}

/// Encodes a list of geometries.
#[verifier::loop_isolation(false)]
pub fn encode_geometry_list(geometries: &Vec<Geometry>) -> (r: DocValue)
    ensures
        r@ == DocView::Sequence(spec_doc_geometries(geometries_view(geometries@))),
{
    let ghost views = geometries_view(geometries@);
    proof {
        lemma_geometries_view_len(geometries@);
    }
    let n = geometries.len();
    let mut items: Vec<DocValue> = Vec::new();
    let mut i: usize = 0;
    while i < n
        invariant
            i <= n,
            docs_view(items@) == spec_doc_geometries(views.subrange(0, i as int)),
        decreases n - i,
    {
        let encoded = encode_geometry(&geometries[i]);
        proof {
            lemma_docs_view_push(items@, encoded);
            assert(views.subrange(0, i + 1).drop_last() =~= views.subrange(0, i as int));
            assert(views.subrange(0, i + 1).last() == views[i as int]);
        }
        items.push(encoded);
        i = i + 1;
    }
    proof {
        assert(views.subrange(0, n as int) =~= views);
    }
    DocValue::Sequence(items)
}

/// Encodes a saved world.
pub fn encode_world(w: &WorldSave) -> (r: DocValue)
    ensures
        r@ == spec_doc_world(w@),
{
    record2(
        "background",
        encode_background(w.background()),
        "geometries",
        encode_geometry_list(w.geometries()),
    )
}

/// Encodes a saved configuration.
pub fn encode_config(c: &ConfigSave) -> (r: DocValue)
    ensures
        r@ == spec_doc_config(c@),
{
    record3(
        "aspect",
        DocValue::Scalar(c.aspect),
        "camera",
        encode_camera(&c.camera),
        "world",
        encode_world(&c.world),
    )
}



/// The shape of a scalar field's document: what `DocValue::Scalar` holds.
pub open spec fn is_index_encoding(d: DocView) -> bool {
    d is Count && d->Count_0 <= usize::MAX as u64
}

/// The shape [`spec_doc_vector`] writes.
pub open spec fn is_vector_encoding(d: DocView) -> bool {
    &&& d is Record
    &&& d->Record_0.len() == 3
    &&& d->Record_0[0].name == "x"@
    &&& d->Record_0[0].value is Scalar
    &&& d->Record_0[1].name == "y"@
    &&& d->Record_0[1].value is Scalar
    &&& d->Record_0[2].name == "z"@
    &&& d->Record_0[2].value is Scalar
}

/// The shape [`spec_doc_colour`] writes.
pub open spec fn is_colour_encoding(d: DocView) -> bool {
    &&& d is Record
    &&& d->Record_0.len() == 3
    &&& d->Record_0[0].name == "r"@
    &&& d->Record_0[0].value is Scalar
    &&& d->Record_0[1].name == "g"@
    &&& d->Record_0[1].value is Scalar
    &&& d->Record_0[2].name == "b"@
    &&& d->Record_0[2].value is Scalar
}

/// The shape [`spec_doc_background`] writes.
pub open spec fn is_background_encoding(d: DocView) -> bool {
    &&& d is Record
    &&& d->Record_0.len() == 2
    &&& d->Record_0[0].name == "top"@
    &&& is_colour_encoding(d->Record_0[0].value)
    &&& d->Record_0[1].name == "bottom"@
    &&& is_colour_encoding(d->Record_0[1].value)
}

/// The shape [`spec_doc_camera`] writes.
pub open spec fn is_camera_encoding(d: DocView) -> bool {
    &&& d is Record
    &&& d->Record_0.len() == 9
    &&& d->Record_0[0].name == "look_from"@
    &&& is_vector_encoding(d->Record_0[0].value)
    &&& d->Record_0[1].name == "look_at"@
    &&& is_vector_encoding(d->Record_0[1].value)
    &&& d->Record_0[2].name == "view_up"@
    &&& is_vector_encoding(d->Record_0[2].value)
    &&& d->Record_0[3].name == "vertical_fov"@
    &&& d->Record_0[3].value is Scalar
    &&& d->Record_0[4].name == "aspect"@
    &&& d->Record_0[4].value is Scalar
    &&& d->Record_0[5].name == "aperture"@
    &&& d->Record_0[5].value is Scalar
    &&& d->Record_0[6].name == "focus_distance"@
    &&& d->Record_0[6].value is Scalar
    &&& d->Record_0[7].name == "time_start"@
    &&& d->Record_0[7].value is Scalar
    &&& d->Record_0[8].name == "time_end"@
    &&& d->Record_0[8].value is Scalar
}

/// The shape [`spec_doc_aabb`] writes.
pub open spec fn is_aabb_encoding(d: DocView) -> bool {
    &&& d is Record
    &&& d->Record_0.len() == 2
    &&& d->Record_0[0].name == "min"@
    &&& is_vector_encoding(d->Record_0[0].value)
    &&& d->Record_0[1].name == "max"@
    &&& is_vector_encoding(d->Record_0[1].value)
}

/// The shape [`spec_doc_colours`] writes, elementwise.
pub open spec fn is_colours_encoding(s: Seq<DocView>) -> bool {
    forall|i: int| 0 <= i < s.len() ==> is_colour_encoding(#[trigger] s[i])
}

/// The shape [`spec_doc_counts`] writes, elementwise.
pub open spec fn is_counts_encoding(s: Seq<DocView>) -> bool {
    forall|i: int| 0 <= i < s.len() ==> is_index_encoding(#[trigger] s[i])
}

/// The shape [`spec_doc_noise_config`] writes.
pub open spec fn is_noise_encoding(d: DocView) -> bool {
    &&& d is Record
    &&& d->Record_0.len() == 4
    &&& d->Record_0[0].name == "ran"@
    &&& d->Record_0[0].value is Sequence
    &&& is_colours_encoding(d->Record_0[0].value->Sequence_0)
    &&& d->Record_0[1].name == "perm_x"@
    &&& d->Record_0[1].value is Sequence
    &&& is_counts_encoding(d->Record_0[1].value->Sequence_0)
    &&& d->Record_0[2].name == "perm_y"@
    &&& d->Record_0[2].value is Sequence
    &&& is_counts_encoding(d->Record_0[2].value->Sequence_0)
    &&& d->Record_0[3].name == "perm_z"@
    &&& d->Record_0[3].value is Sequence
    &&& is_counts_encoding(d->Record_0[3].value->Sequence_0)
}

/// The shape [`spec_doc_texture`] writes.
pub open spec fn is_texture_encoding(d: DocView) -> bool
    decreases d,
{
    &&& d is Record
    &&& d->Record_0.len() == 1
    &&& d->Record_0[0].value is Record
    &&& {
        let tag = d->Record_0[0].name;
        let payload = d->Record_0[0].value;
        ||| (tag == "Constant"@ && payload->Record_0.len() == 1 && payload->Record_0[0].name
            == "colour"@ && is_colour_encoding(payload->Record_0[0].value))
        ||| (tag == "Checker"@ && payload->Record_0.len() == 2 && payload->Record_0[0].name
            == "even"@ && is_texture_encoding(payload->Record_0[0].value)
            && payload->Record_0[1].name == "odd"@ && is_texture_encoding(
            payload->Record_0[1].value,
        ))
        ||| (tag == "Noise"@ && payload->Record_0.len() == 4 && payload->Record_0[0].name
            == "base_colour"@ && is_colour_encoding(payload->Record_0[0].value)
            && payload->Record_0[1].name == "scale"@ && payload->Record_0[1].value is Scalar
            && payload->Record_0[2].name == "noisiness"@ && payload->Record_0[2].value is Scalar
            && payload->Record_0[3].name == "noise_config"@ && is_noise_encoding(
            payload->Record_0[3].value,
        ))
        ||| (tag == "Image"@ && payload->Record_0.len() == 1 && payload->Record_0[0].name
            == "asset_name"@ && payload->Record_0[0].value is Text)
    }
}

/// The shape [`spec_doc_material`] writes.
pub open spec fn is_material_encoding(d: DocView) -> bool {
    &&& d is Record
    &&& d->Record_0.len() == 1
    &&& d->Record_0[0].value is Record
    &&& {
        let tag = d->Record_0[0].name;
        let payload = d->Record_0[0].value;
        ||| (tag == "Lambertian"@ && payload->Record_0.len() == 1 && payload->Record_0[0].name
            == "albedo"@ && is_texture_encoding(payload->Record_0[0].value))
        ||| (tag == "Metal"@ && payload->Record_0.len() == 2 && payload->Record_0[0].name
            == "albedo"@ && is_colour_encoding(payload->Record_0[0].value)
            && payload->Record_0[1].name == "fuzz"@ && payload->Record_0[1].value is Scalar)
        ||| (tag == "Dielectric"@ && payload->Record_0.len() == 1 && payload->Record_0[0].name
            == "refractive_index"@ && payload->Record_0[0].value is Scalar)
        ||| (tag == "DiffuseLight"@ && payload->Record_0.len() == 1 && payload->Record_0[0].name
            == "emit"@ && is_texture_encoding(payload->Record_0[0].value))
        ||| (tag == "Isotropic"@ && payload->Record_0.len() == 1 && payload->Record_0[0].name
            == "albedo"@ && is_texture_encoding(payload->Record_0[0].value))
    }
}

/// The shape of a `Sphere` payload.
pub open spec fn is_sphere_payload_encoding(p: DocView) -> bool {
    &&& p is Record
    &&& p->Record_0.len() == 3
    &&& p->Record_0[0].name == "centre"@
    &&& is_vector_encoding(p->Record_0[0].value)
    &&& p->Record_0[1].name == "radius"@
    &&& p->Record_0[1].value is Scalar
    &&& p->Record_0[2].name == "material"@
    &&& is_material_encoding(p->Record_0[2].value)
}

/// The shape of a `MovingSphere` payload.
pub open spec fn is_moving_sphere_payload_encoding(p: DocView) -> bool {
    &&& p is Record
    &&& p->Record_0.len() == 6
    &&& p->Record_0[0].name == "centre_start"@
    &&& is_vector_encoding(p->Record_0[0].value)
    &&& p->Record_0[1].name == "time_start"@
    &&& p->Record_0[1].value is Scalar
    &&& p->Record_0[2].name == "centre_end"@
    &&& is_vector_encoding(p->Record_0[2].value)
    &&& p->Record_0[3].name == "time_end"@
    &&& p->Record_0[3].value is Scalar
    &&& p->Record_0[4].name == "radius"@
    &&& p->Record_0[4].value is Scalar
    &&& p->Record_0[5].name == "material"@
    &&& is_material_encoding(p->Record_0[5].value)
}

/// The shape of an axis-aligned-rectangle payload with the given four
/// line names.
pub open spec fn is_rect_payload_encoding(
    p: DocView,
    n0: Seq<char>,
    n1: Seq<char>,
    n2: Seq<char>,
    n3: Seq<char>,
) -> bool {
    &&& p is Record
    &&& p->Record_0.len() == 6
    &&& p->Record_0[0].name == n0
    &&& p->Record_0[0].value is Scalar
    &&& p->Record_0[1].name == n1
    &&& p->Record_0[1].value is Scalar
    &&& p->Record_0[2].name == n2
    &&& p->Record_0[2].value is Scalar
    &&& p->Record_0[3].name == n3
    &&& p->Record_0[3].value is Scalar
    &&& p->Record_0[4].name == "k"@
    &&& p->Record_0[4].value is Scalar
    &&& p->Record_0[5].name == "material"@
    &&& is_material_encoding(p->Record_0[5].value)
}

/// The shape of a `Cube` payload.
pub open spec fn is_cube_payload_encoding(p: DocView) -> bool
    decreases p, 2int,
{
    &&& p is Record
    &&& p->Record_0.len() == 3
    &&& p->Record_0[0].name == "rectangles"@
    &&& p->Record_0[0].value is Sequence
    &&& is_geometries_encoding(p->Record_0[0].value->Sequence_0)
    &&& p->Record_0[1].name == "pmin"@
    &&& is_vector_encoding(p->Record_0[1].value)
    &&& p->Record_0[2].name == "pmax"@
    &&& is_vector_encoding(p->Record_0[2].value)
}

/// The shape of a `ConstantMedium` payload.
pub open spec fn is_medium_payload_encoding(p: DocView) -> bool
    decreases p, 2int,
{
    &&& p is Record
    &&& p->Record_0.len() == 3
    &&& p->Record_0[0].name == "boundary"@
    &&& is_geometry_encoding(p->Record_0[0].value)
    &&& p->Record_0[1].name == "density"@
    &&& p->Record_0[1].value is Scalar
    &&& p->Record_0[2].name == "material"@
    &&& is_material_encoding(p->Record_0[2].value)
}

/// The shape of a `Flip` payload.
pub open spec fn is_flip_payload_encoding(p: DocView) -> bool
    decreases p, 2int,
{
    &&& p is Record
    &&& p->Record_0.len() == 1
    &&& p->Record_0[0].name == "geometry"@
    &&& is_geometry_encoding(p->Record_0[0].value)
}

/// The shape of a `Translate` payload.
pub open spec fn is_translate_payload_encoding(p: DocView) -> bool
    decreases p, 2int,
{
    &&& p is Record
    &&& p->Record_0.len() == 2
    &&& p->Record_0[0].name == "geometry"@
    &&& is_geometry_encoding(p->Record_0[0].value)
    &&& p->Record_0[1].name == "offset"@
    &&& is_vector_encoding(p->Record_0[1].value)
}

/// The shape of a `RotateY` payload.
pub open spec fn is_rotate_payload_encoding(p: DocView) -> bool
    decreases p, 2int,
{
    &&& p is Record
    &&& p->Record_0.len() == 2
    &&& p->Record_0[0].name == "geometry"@
    &&& is_geometry_encoding(p->Record_0[0].value)
    &&& p->Record_0[1].name == "angle"@
    &&& p->Record_0[1].value is Scalar
}

/// The shape of a `Bvh` payload.
pub open spec fn is_bvh_payload_encoding(p: DocView) -> bool
    decreases p, 2int,
{
    &&& p is Record
    &&& p->Record_0.len() == 3
    &&& p->Record_0[0].name == "left"@
    &&& is_opt_geometry_encoding(p->Record_0[0].value)
    &&& p->Record_0[1].name == "right"@
    &&& is_opt_geometry_encoding(p->Record_0[1].value)
    &&& p->Record_0[2].name == "bounding_box"@
    &&& is_aabb_encoding(p->Record_0[2].value)
}

/// The shape of an optional hierarchy child: absent, or a geometry.
pub open spec fn is_opt_geometry_encoding(d: DocView) -> bool
    decreases d, 3int,
{
    d is Nothing || is_geometry_encoding(d)
}

/// The shape [`spec_doc_geometry`] writes: a single-field record whose
/// tag names the variant and whose payload has that variant's shape.
pub open spec fn is_geometry_encoding(d: DocView) -> bool
    decreases d, 1int,
{
    &&& d is Record
    &&& d->Record_0.len() == 1
    &&& {
        let tag = d->Record_0[0].name;
        let payload = d->Record_0[0].value;
        ||| (tag == "Sphere"@ && is_sphere_payload_encoding(payload))
        ||| (tag == "MovingSphere"@ && is_moving_sphere_payload_encoding(payload))
        ||| (tag == "XyRect"@ && is_rect_payload_encoding(payload, "x0"@, "x1"@, "y0"@, "y1"@))
        ||| (tag == "XzRect"@ && is_rect_payload_encoding(payload, "x0"@, "x1"@, "z0"@, "z1"@))
        ||| (tag == "YzRect"@ && is_rect_payload_encoding(payload, "y0"@, "y1"@, "z0"@, "z1"@))
        ||| (tag == "Cube"@ && is_cube_payload_encoding(payload))
        ||| (tag == "ConstantMedium"@ && is_medium_payload_encoding(payload))
        ||| (tag == "Flip"@ && is_flip_payload_encoding(payload))
        ||| (tag == "Translate"@ && is_translate_payload_encoding(payload))
        ||| (tag == "RotateY"@ && is_rotate_payload_encoding(payload))
        ||| (tag == "Bvh"@ && is_bvh_payload_encoding(payload))
    }
}

/// The shape [`spec_doc_geometries`] writes, elementwise.
pub open spec fn is_geometries_encoding(s: Seq<DocView>) -> bool
    decreases s, 0int,
{
    forall|i: int| 0 <= i < s.len() ==> is_geometry_encoding(#[trigger] s[i])
}

/// The shape [`spec_doc_world`] writes.
pub open spec fn is_world_encoding(d: DocView) -> bool {
    &&& d is Record
    &&& d->Record_0.len() == 2
    &&& d->Record_0[0].name == "background"@
    &&& is_background_encoding(d->Record_0[0].value)
    &&& d->Record_0[1].name == "geometries"@
    &&& d->Record_0[1].value is Sequence
    &&& is_geometries_encoding(d->Record_0[1].value->Sequence_0)
}

/// The shape [`spec_doc_config`] writes.
pub open spec fn is_config_encoding(d: DocView) -> bool {
    &&& d is Record
    &&& d->Record_0.len() == 3
    &&& d->Record_0[0].name == "aspect"@
    &&& d->Record_0[0].value is Scalar
    &&& d->Record_0[1].name == "camera"@
    &&& is_camera_encoding(d->Record_0[1].value)
    &&& d->Record_0[2].name == "world"@
    &&& is_world_encoding(d->Record_0[2].value)
}

/// Decodes a scalar.
fn decode_scalar(doc: &DocValue) -> (r: Result<Real64, DocError>)
    ensures
        match r {
            Ok(v) => doc@ == DocView::Scalar(v),
            Err(_) => !(doc@ is Scalar),
        },
{
    match doc {
        DocValue::Scalar(v) => Ok(*v),
        _ => Err(DocError {}),
    }
}

/// Decodes an unsigned integer that must fit a table index.
fn decode_index(doc: &DocValue) -> (r: Result<usize, DocError>)
    ensures
        match r {
            Ok(v) => doc@ == DocView::Count(v as u64),
            Err(_) => !(doc@ is Count) || doc@->Count_0 > usize::MAX as u64,
        },
{
    match doc {
        DocValue::Count(c) => {
            if *c <= usize::MAX as u64 {
                let u = *c as usize;
                assert(doc@ == DocView::Count(u as u64));
                Ok(u)
            } else {
                Err(DocError {})
            }
        },
        _ => Err(DocError {}),
    }
}

/// Decodes a piece of text.
fn decode_text(doc: &DocValue) -> (r: Result<String, DocError>)
    ensures
        match r {
            Ok(v) => doc@ == DocView::Text(v@),
            Err(_) => !(doc@ is Text),
        },
{
    match doc {
        DocValue::Text(t) => Ok(crate::texture::copy_string(t)),
        _ => Err(DocError {}),
    }
}

/// Decodes a vector.
fn decode_vector(doc: &DocValue) -> (r: Result<Vector, DocError>)
    ensures
        forall|x: Vector| doc@ == #[trigger] spec_doc_vector(x) ==> (r matches Ok(d) && d == x),
        r matches Ok(d) ==> doc@ == spec_doc_vector(d),
        is_vector_encoding(doc@) ==> r is Ok,
{
    let fields = match doc {
        DocValue::Record(fields) => fields,
        _ => {
            return Err(DocError {});
        },
    };
    proof {
        lemma_fields_view_len(fields@);
    }
    if fields.len() != 3 {
        return Err(DocError {});
    }
    let x = decode_scalar(get_field(fields, 0, "x")?)?;
    let y = decode_scalar(get_field(fields, 1, "y")?)?;
    let z = decode_scalar(get_field(fields, 2, "z")?)?;
    let d = Vector { x, y, z };
    proof {
        assert(fields_view(fields@) =~= spec_doc_vector(d)->Record_0);
    }
    Ok(d)
}


/// Decodes a colour.
fn decode_colour(doc: &DocValue) -> (r: Result<Colour, DocError>)
    ensures
        forall|x: Colour| doc@ == #[trigger] spec_doc_colour(x) ==> (r matches Ok(d) && d == x),
        r matches Ok(d) ==> doc@ == spec_doc_colour(d),
        is_colour_encoding(doc@) ==> r is Ok,
{
    let fields = match doc {
        DocValue::Record(fields) => fields,
        _ => {
            return Err(DocError {});
        },
    };
    proof {
        lemma_fields_view_len(fields@);
    }
    if fields.len() != 3 {
        return Err(DocError {});
    }
    let red = decode_scalar(get_field(fields, 0, "r")?)?;
    let green = decode_scalar(get_field(fields, 1, "g")?)?;
    let blue = decode_scalar(get_field(fields, 2, "b")?)?;
    let d = Colour { r: red, g: green, b: blue };
    proof {
        assert(fields_view(fields@) =~= spec_doc_colour(d)->Record_0);
    }
    Ok(d)
}

/// Decodes a background gradient.
fn decode_background(doc: &DocValue) -> (r: Result<Background, DocError>)
    ensures
        forall|x: Background| doc@ == #[trigger] spec_doc_background(x) ==> (r matches Ok(d) && d
            == x),
        r matches Ok(d) ==> doc@ == spec_doc_background(d),
        is_background_encoding(doc@) ==> r is Ok,
{
    let fields = match doc {
        DocValue::Record(fields) => fields,
        _ => {
            return Err(DocError {});
        },
    };
    proof {
        lemma_fields_view_len(fields@);
    }
    if fields.len() != 2 {
        return Err(DocError {});
    }
    let top = decode_colour(get_field(fields, 0, "top")?)?;
    let bottom = decode_colour(get_field(fields, 1, "bottom")?)?;
    let d = Background { top, bottom };
    proof {
        assert(fields_view(fields@) =~= spec_doc_background(d)->Record_0);
    }
    Ok(d)
}

/// Decodes a saved camera.
pub fn decode_camera(doc: &DocValue) -> (r: Result<CameraSave, DocError>)
    ensures
        forall|x: CameraSave| doc@ == #[trigger] spec_doc_camera(x) ==> (r matches Ok(d) && d == x),
        r matches Ok(d) ==> doc@ == spec_doc_camera(d),
        is_camera_encoding(doc@) ==> r is Ok,
{
    let fields = match doc {
        DocValue::Record(fields) => fields,
        _ => {
            return Err(DocError {});
        },
    };
    proof {
        lemma_fields_view_len(fields@);
    }
    if fields.len() != 9 {
        return Err(DocError {});
    }
    let look_from = decode_vector(get_field(fields, 0, "look_from")?)?;
    let look_at = decode_vector(get_field(fields, 1, "look_at")?)?;
    let view_up = decode_vector(get_field(fields, 2, "view_up")?)?;
    let vertical_fov = decode_scalar(get_field(fields, 3, "vertical_fov")?)?;
    let aspect = decode_scalar(get_field(fields, 4, "aspect")?)?;
    let aperture = decode_scalar(get_field(fields, 5, "aperture")?)?;
    let focus_distance = decode_scalar(get_field(fields, 6, "focus_distance")?)?;
    let time_start = decode_scalar(get_field(fields, 7, "time_start")?)?;
    let time_end = decode_scalar(get_field(fields, 8, "time_end")?)?;
    let d = CameraSave {
        look_from,
        look_at,
        view_up,
        vertical_fov,
        aspect,
        aperture,
        focus_distance,
        time_start,
        time_end,
    };
    proof {
        assert(fields_view(fields@) =~= spec_doc_camera(d)->Record_0);
    }
    Ok(d)
}

/// Decodes a bounding box.
fn decode_aabb(doc: &DocValue) -> (r: Result<AxisAlignedBoundingBox, DocError>)
    ensures
        forall|x: AxisAlignedBoundingBox| doc@ == #[trigger] spec_doc_aabb(x) ==> (r matches Ok(d)
            && d == x),
        r matches Ok(d) ==> doc@ == spec_doc_aabb(d),
        is_aabb_encoding(doc@) ==> r is Ok,
{
    let fields = match doc {
        DocValue::Record(fields) => fields,
        _ => {
            return Err(DocError {});
        },
    };
    proof {
        lemma_fields_view_len(fields@);
    }
    if fields.len() != 2 {
        return Err(DocError {});
    }
    let low = decode_vector(get_field(fields, 0, "min")?)?;
    let high = decode_vector(get_field(fields, 1, "max")?)?;
    let d = AxisAlignedBoundingBox { min: low, max: high };
    proof {
        assert(fields_view(fields@) =~= spec_doc_aabb(d)->Record_0);
    }
    Ok(d)
}

/// Decodes a list of colours.
#[verifier::loop_isolation(false)]
fn decode_colours(items: &Vec<DocValue>) -> (r: Result<Vec<Colour>, DocError>)
    ensures
        forall|xs: Seq<Colour>| docs_view(items@) == #[trigger] spec_doc_colours(xs) ==> (r matches
            Ok(d) && d@ == xs),
        r matches Ok(d) ==> docs_view(items@) == spec_doc_colours(d@),
        is_colours_encoding(docs_view(items@)) ==> r is Ok,
{
    proof {
        lemma_docs_view_len(items@);
    }
    let n = items.len();
    let mut out: Vec<Colour> = Vec::new();
    let mut i: usize = 0;
    while i < n
        invariant
            i <= n,
            out@.len() == i,
            forall|j: int|
                0 <= j < i ==> docs_view(items@)[j] == spec_doc_colour(#[trigger] out@[j]),
        decreases n - i,
    {
        match decode_colour(&items[i]) {
            Ok(c) => {
                out.push(c);
            },
            Err(e) => {
                proof {
                    assert forall|xs: Seq<Colour>|
                        docs_view(items@) != #[trigger] spec_doc_colours(xs) by {
                        if docs_view(items@) == spec_doc_colours(xs) {
                            assert(docs_view(items@)[i as int] == spec_doc_colour(xs[i as int]));
                        }
                    }
                }
                return Err(e);
            },
        }
        i = i + 1;
    }
    proof {
        assert(docs_view(items@) =~= spec_doc_colours(out@));
        assert forall|xs: Seq<Colour>|
            docs_view(items@) == #[trigger] spec_doc_colours(xs) implies out@ == xs by {
            assert forall|j: int| 0 <= j < n implies out@[j] == xs[j] by {
                assert(spec_doc_colour(out@[j]) == spec_doc_colour(xs[j]));
            }
            assert(out@ =~= xs);
        }
    }
    Ok(out)
}

/// Decodes a list of table indices.
#[verifier::loop_isolation(false)]
fn decode_indices(items: &Vec<DocValue>) -> (r: Result<Vec<usize>, DocError>)
    ensures
        forall|xs: Seq<usize>| docs_view(items@) == #[trigger] spec_doc_counts(xs) ==> (r matches
            Ok(d) && d@ == xs),
        r matches Ok(d) ==> docs_view(items@) == spec_doc_counts(d@),
        is_counts_encoding(docs_view(items@)) ==> r is Ok,
{
    proof {
        lemma_docs_view_len(items@);
    }
    let n = items.len();
    let mut out: Vec<usize> = Vec::new();
    let mut i: usize = 0;
    while i < n
        invariant
            i <= n,
            out@.len() == i,
            forall|j: int|
                0 <= j < i ==> docs_view(items@)[j] == DocView::Count(
                    (#[trigger] out@[j]) as u64,
                ),
        decreases n - i,
    {
        match decode_index(&items[i]) {
            Ok(u) => {
                out.push(u);
            },
            Err(e) => {
                proof {
                    assert forall|xs: Seq<usize>|
                        docs_view(items@) != #[trigger] spec_doc_counts(xs) by {
                        if docs_view(items@) == spec_doc_counts(xs) {
                            assert(docs_view(items@)[i as int] == DocView::Count(
                                xs[i as int] as u64,
                            ));
                        }
                    }
                }
                return Err(e);
            },
        }
        i = i + 1;
    }
    proof {
        assert(docs_view(items@) =~= spec_doc_counts(out@));
        assert forall|xs: Seq<usize>|
            docs_view(items@) == #[trigger] spec_doc_counts(xs) implies out@ == xs by {
            assert forall|j: int| 0 <= j < n implies out@[j] == xs[j] by {
                assert(DocView::Count(out@[j] as u64) == DocView::Count(xs[j] as u64));
            }
            assert(out@ =~= xs);
        }
    }
    Ok(out)
}

/// Decodes a Perlin-noise table.
fn decode_noise_config(doc: &DocValue) -> (r: Result<NoiseConfig, DocError>)
    ensures
        forall|x: NoiseConfigView| doc@ == #[trigger] spec_doc_noise_config(x) ==> (r matches Ok(d)
            && d@ == x),
        r matches Ok(d) ==> doc@ == spec_doc_noise_config(d@),
        is_noise_encoding(doc@) ==> r is Ok,
{
    let fields = match doc {
        DocValue::Record(fields) => fields,
        _ => {
            return Err(DocError {});
        },
    };
    proof {
        lemma_fields_view_len(fields@);
    }
    if fields.len() != 4 {
        return Err(DocError {});
    }
    let ran_doc = get_field(fields, 0, "ran")?;
    let ran_items = match ran_doc {
        DocValue::Sequence(items) => items,
        _ => {
            return Err(DocError {});
        },
    };
    let ran = decode_colours(ran_items)?;
    let perm_x = decode_index_sequence(get_field(fields, 1, "perm_x")?)?;
    let perm_y = decode_index_sequence(get_field(fields, 2, "perm_y")?)?;
    let perm_z = decode_index_sequence(get_field(fields, 3, "perm_z")?)?;
    let d = NoiseConfig { ran, perm_x, perm_y, perm_z };
    proof {
        assert(fields_view(fields@) =~= spec_doc_noise_config(d@)->Record_0);
    }
    Ok(d)
}

/// Decodes a sequence document of table indices.
fn decode_index_sequence(doc: &DocValue) -> (r: Result<Vec<usize>, DocError>)
    ensures
        forall|xs: Seq<usize>| doc@ == DocView::Sequence(#[trigger] spec_doc_counts(xs)) ==> (
        r matches Ok(d) && d@ == xs),
        r matches Ok(d) ==> doc@ == DocView::Sequence(spec_doc_counts(d@)),
        doc@ is Sequence && is_counts_encoding(doc@->Sequence_0) ==> r is Ok,
{
    let items = match doc {
        DocValue::Sequence(items) => items,
        _ => {
            return Err(DocError {});
        },
    };
    decode_indices(items)
}


/// The variant tags are pairwise distinct pieces of text.
proof fn lemma_texture_tags_distinct()
    ensures
        "Constant"@ != "Checker"@,
        "Constant"@ != "Noise"@,
        "Constant"@ != "Image"@,
        "Checker"@ != "Noise"@,
        "Checker"@ != "Image"@,
        "Noise"@ != "Image"@,
{
    reveal_strlit("Constant");
    reveal_strlit("Checker");
    reveal_strlit("Noise");
    reveal_strlit("Image");
    assert("Constant"@.len() == 8);
    assert("Checker"@.len() == 7);
    assert("Noise"@.len() == 5);
    assert("Image"@.len() == 5);
    assert("Noise"@[0] == 'N');
    assert("Image"@[0] == 'I');
}

/// The variant tags are pairwise distinct pieces of text.
proof fn lemma_material_tags_distinct()
    ensures
        "Lambertian"@ != "Metal"@,
        "Lambertian"@ != "Dielectric"@,
        "Lambertian"@ != "DiffuseLight"@,
        "Lambertian"@ != "Isotropic"@,
        "Metal"@ != "Dielectric"@,
        "Metal"@ != "DiffuseLight"@,
        "Metal"@ != "Isotropic"@,
        "Dielectric"@ != "DiffuseLight"@,
        "Dielectric"@ != "Isotropic"@,
        "DiffuseLight"@ != "Isotropic"@,
{
    reveal_strlit("Lambertian");
    reveal_strlit("Metal");
    reveal_strlit("Dielectric");
    reveal_strlit("DiffuseLight");
    reveal_strlit("Isotropic");
    assert("Lambertian"@.len() == 10);
    assert("Metal"@.len() == 5);
    assert("Dielectric"@.len() == 10);
    assert("DiffuseLight"@.len() == 12);
    assert("Isotropic"@.len() == 9);
    assert("Lambertian"@[0] == 'L');
    assert("Dielectric"@[0] == 'D');
}

/// The geometry variant tags are pairwise distinct pieces of text.
proof fn lemma_geometry_tags_distinct()
    ensures
        "Bvh"@ != "Sphere"@,
        "Bvh"@ != "MovingSphere"@,
        "Bvh"@ != "Cube"@,
        "Bvh"@ != "ConstantMedium"@,
        "Bvh"@ != "XyRect"@,
        "Bvh"@ != "XzRect"@,
        "Bvh"@ != "YzRect"@,
        "Bvh"@ != "Flip"@,
        "Bvh"@ != "Translate"@,
        "Bvh"@ != "RotateY"@,
        "Sphere"@ != "MovingSphere"@,
        "Sphere"@ != "Cube"@,
        "Sphere"@ != "ConstantMedium"@,
        "Sphere"@ != "XyRect"@,
        "Sphere"@ != "XzRect"@,
        "Sphere"@ != "YzRect"@,
        "Sphere"@ != "Flip"@,
        "Sphere"@ != "Translate"@,
        "Sphere"@ != "RotateY"@,
        "MovingSphere"@ != "Cube"@,
        "MovingSphere"@ != "ConstantMedium"@,
        "MovingSphere"@ != "XyRect"@,
        "MovingSphere"@ != "XzRect"@,
        "MovingSphere"@ != "YzRect"@,
        "MovingSphere"@ != "Flip"@,
        "MovingSphere"@ != "Translate"@,
        "MovingSphere"@ != "RotateY"@,
        "Cube"@ != "ConstantMedium"@,
        "Cube"@ != "XyRect"@,
        "Cube"@ != "XzRect"@,
        "Cube"@ != "YzRect"@,
        "Cube"@ != "Flip"@,
        "Cube"@ != "Translate"@,
        "Cube"@ != "RotateY"@,
        "ConstantMedium"@ != "XyRect"@,
        "ConstantMedium"@ != "XzRect"@,
        "ConstantMedium"@ != "YzRect"@,
        "ConstantMedium"@ != "Flip"@,
        "ConstantMedium"@ != "Translate"@,
        "ConstantMedium"@ != "RotateY"@,
        "XyRect"@ != "XzRect"@,
        "XyRect"@ != "YzRect"@,
        "XyRect"@ != "Flip"@,
        "XyRect"@ != "Translate"@,
        "XyRect"@ != "RotateY"@,
        "XzRect"@ != "YzRect"@,
        "XzRect"@ != "Flip"@,
        "XzRect"@ != "Translate"@,
        "XzRect"@ != "RotateY"@,
        "YzRect"@ != "Flip"@,
        "YzRect"@ != "Translate"@,
        "YzRect"@ != "RotateY"@,
        "Flip"@ != "Translate"@,
        "Flip"@ != "RotateY"@,
        "Translate"@ != "RotateY"@,
{
    reveal_strlit("Bvh");
    reveal_strlit("Sphere");
    reveal_strlit("MovingSphere");
    reveal_strlit("Cube");
    reveal_strlit("ConstantMedium");
    reveal_strlit("XyRect");
    reveal_strlit("XzRect");
    reveal_strlit("YzRect");
    reveal_strlit("Flip");
    reveal_strlit("Translate");
    reveal_strlit("RotateY");
    assert("Bvh"@.len() == 3);
    assert("Sphere"@.len() == 6);
    assert("MovingSphere"@.len() == 12);
    assert("Cube"@.len() == 4);
    assert("ConstantMedium"@.len() == 14);
    assert("XyRect"@.len() == 6);
    assert("XzRect"@.len() == 6);
    assert("YzRect"@.len() == 6);
    assert("Flip"@.len() == 4);
    assert("Translate"@.len() == 9);
    assert("RotateY"@.len() == 7);
    assert("Sphere"@[0] == 'S');
    assert("XyRect"@[0] == 'X');
    assert("XzRect"@[0] == 'X');
    assert("YzRect"@[0] == 'Y');
    assert("XyRect"@[1] == 'y');
    assert("XzRect"@[1] == 'z');
    assert("Cube"@[0] == 'C');
    assert("Flip"@[0] == 'F');
}

/// The document image of a geometry list keeps its length and maps
/// elements.
proof fn lemma_spec_doc_geometries_len(s: Seq<GeometryView>)
    ensures
        spec_doc_geometries(s).len() == s.len(),
        forall|i: int| 0 <= i < s.len() ==> spec_doc_geometries(s)[i] == spec_doc_geometry(s[i]),
    decreases s,
{
    if s.len() > 0 {
        lemma_spec_doc_geometries_len(s.drop_last());
    }
}

/// Every geometry encodes to a record.
proof fn lemma_geometry_doc_is_record()
    ensures
        forall|g: GeometryView| (#[trigger] spec_doc_geometry(g)) is Record,
{
}

/// A record document sits above each of its field values.
proof fn lemma_doc_record_field_decreases(d: DocView, i: int)
    requires
        d is Record,
        0 <= i < d->Record_0.len(),
    ensures
        decreases_to!(d => d->Record_0[i].value),
{
    assert(decreases_to!(d => d->Record_0));
    assert(decreases_to!(d->Record_0 => d->Record_0[i]));
    assert(decreases_to!(d->Record_0[i] => d->Record_0[i].value));
}

/// A sequence document sits above the sequence it carries.
proof fn lemma_doc_sequence_decreases(d: DocView)
    requires
        d is Sequence,
    ensures
        decreases_to!(d => d->Sequence_0),
{
}

/// Decodes a texture.
fn decode_texture(doc: &DocValue) -> (r: Result<Texture, DocError>)
    ensures
        forall|x: TextureView| doc@ == #[trigger] spec_doc_texture(x) ==> (r matches Ok(d) && d@
            == x),
        r matches Ok(d) ==> doc@ == spec_doc_texture(d@),
        is_texture_encoding(doc@) ==> r is Ok,
    decreases doc@,
{
    proof {
        lemma_texture_tags_distinct();
    }
    let fields = match doc {
        DocValue::Record(fields) => fields,
        _ => {
            return Err(DocError {});
        },
    };
    proof {
        lemma_fields_view_len(fields@);
    }
    if fields.len() != 1 {
        return Err(DocError {});
    }
    let tag = &fields[0].name;
    let payload = &fields[0].value;
    proof {
        assert(decreases_to!(doc@ => doc@->Record_0));
        assert(decreases_to!(doc@->Record_0 => doc@->Record_0[0]));
        assert(decreases_to!(doc@->Record_0[0] => doc@->Record_0[0].value));
        assert(payload@ == doc@->Record_0[0].value);
    }
    if crate::text::str_eq(tag.as_str(), "Constant") {
        let pfields = match payload {
            DocValue::Record(pfields) => pfields,
            _ => {
                return Err(DocError {});
            },
        };
        proof {
            lemma_fields_view_len(pfields@);
        }
        if pfields.len() != 1 {
            return Err(DocError {});
        }
        let colour = decode_colour(get_field(pfields, 0, "colour")?)?;
        let d = Texture::Constant { colour };
        proof {
            assert(fields_view(pfields@) =~= spec_doc_texture(d@)->Record_0[0].value->Record_0);
            assert(fields_view(fields@) =~= spec_doc_texture(d@)->Record_0);
        }
        Ok(d)
    } else if crate::text::str_eq(tag.as_str(), "Checker") {
        let pfields = match payload {
            DocValue::Record(pfields) => pfields,
            _ => {
                return Err(DocError {});
            },
        };
        proof {
            lemma_fields_view_len(pfields@);
        }
        if pfields.len() != 2 {
            return Err(DocError {});
        }
        proof {
            assert(payload@->Record_0 == fields_view(pfields@));
            assert(decreases_to!(payload@ => payload@->Record_0));
            assert(decreases_to!(payload@->Record_0 => payload@->Record_0[0]));
            assert(decreases_to!(payload@->Record_0[0] => payload@->Record_0[0].value));
            assert(decreases_to!(payload@->Record_0 => payload@->Record_0[1]));
            assert(decreases_to!(payload@->Record_0[1] => payload@->Record_0[1].value));
        }
        let even_doc = get_field(pfields, 0, "even")?;
        let even = match decode_texture(even_doc) {
            Ok(t) => t,
            Err(e) => {
                proof {
                    assert forall|x: TextureView| doc@ != spec_doc_texture(x) by {
                        if doc@ == spec_doc_texture(x) {
                            assert(x is Checker);
                            assert(even_doc@ == spec_doc_texture(*x->Checker_even));
                        }
                    }
                }
                return Err(e);
            },
        };
        let odd_doc = get_field(pfields, 1, "odd")?;
        let odd = match decode_texture(odd_doc) {
            Ok(t) => t,
            Err(e) => {
                proof {
                    assert forall|x: TextureView| doc@ != spec_doc_texture(x) by {
                        if doc@ == spec_doc_texture(x) {
                            assert(x is Checker);
                            assert(odd_doc@ == spec_doc_texture(*x->Checker_odd));
                        }
                    }
                }
                return Err(e);
            },
        };
        let d = Texture::Checker { even: Box::new(even), odd: Box::new(odd) };
        proof {
            assert(fields_view(pfields@) =~= spec_doc_texture(d@)->Record_0[0].value->Record_0);
            assert(fields_view(fields@) =~= spec_doc_texture(d@)->Record_0);
            assert forall|x: TextureView| doc@ == #[trigger] spec_doc_texture(x) implies d@
                == x by {
                assert(x is Checker);
                assert(even_doc@ == spec_doc_texture(*x->Checker_even));
                assert(odd_doc@ == spec_doc_texture(*x->Checker_odd));
                assert(even@ == *x->Checker_even);
                assert(odd@ == *x->Checker_odd);
            }
        }
        Ok(d)
    } else if crate::text::str_eq(tag.as_str(), "Noise") {
        let pfields = match payload {
            DocValue::Record(pfields) => pfields,
            _ => {
                return Err(DocError {});
            },
        };
        proof {
            lemma_fields_view_len(pfields@);
        }
        if pfields.len() != 4 {
            return Err(DocError {});
        }
        let base_colour = decode_colour(get_field(pfields, 0, "base_colour")?)?;
        let scale = decode_scalar(get_field(pfields, 1, "scale")?)?;
        let noisiness = decode_scalar(get_field(pfields, 2, "noisiness")?)?;
        let noise_config = decode_noise_config(get_field(pfields, 3, "noise_config")?)?;
        let d = Texture::Noise { base_colour, scale, noisiness, noise_config };
        proof {
            assert(fields_view(pfields@) =~= spec_doc_texture(d@)->Record_0[0].value->Record_0);
            assert(fields_view(fields@) =~= spec_doc_texture(d@)->Record_0);
        }
        Ok(d)
    } else if crate::text::str_eq(tag.as_str(), "Image") {
        let pfields = match payload {
            DocValue::Record(pfields) => pfields,
            _ => {
                return Err(DocError {});
            },
        };
        proof {
            lemma_fields_view_len(pfields@);
        }
        if pfields.len() != 1 {
            return Err(DocError {});
        }
        let asset_name = decode_text(get_field(pfields, 0, "asset_name")?)?;
        let d = Texture::Image { asset_name };
        proof {
            assert(fields_view(pfields@) =~= spec_doc_texture(d@)->Record_0[0].value->Record_0);
            assert(fields_view(fields@) =~= spec_doc_texture(d@)->Record_0);
        }
        Ok(d)
    } else {
        Err(DocError {})
    }
}

/// Decodes a material.
fn decode_material(doc: &DocValue) -> (r: Result<Material, DocError>)
    ensures
        forall|x: MaterialView| doc@ == #[trigger] spec_doc_material(x) ==> (r matches Ok(d) && d@
            == x),
        r matches Ok(d) ==> doc@ == spec_doc_material(d@),
        is_material_encoding(doc@) ==> r is Ok,
{
    proof {
        lemma_material_tags_distinct();
    }
    let fields = match doc {
        DocValue::Record(fields) => fields,
        _ => {
            return Err(DocError {});
        },
    };
    proof {
        lemma_fields_view_len(fields@);
    }
    if fields.len() != 1 {
        return Err(DocError {});
    }
    let tag = &fields[0].name;
    let payload = &fields[0].value;
    if crate::text::str_eq(tag.as_str(), "Lambertian") {
        let pfields = match payload {
            DocValue::Record(pfields) => pfields,
            _ => {
                return Err(DocError {});
            },
        };
        proof {
            lemma_fields_view_len(pfields@);
        }
        if pfields.len() != 1 {
            return Err(DocError {});
        }
        let albedo = decode_texture(get_field(pfields, 0, "albedo")?)?;
        let d = Material::Lambertian { albedo };
        proof {
            assert(fields_view(pfields@) =~= spec_doc_material(d@)->Record_0[0].value->Record_0);
            assert(fields_view(fields@) =~= spec_doc_material(d@)->Record_0);
        }
        Ok(d)
    } else if crate::text::str_eq(tag.as_str(), "Metal") {
        let pfields = match payload {
            DocValue::Record(pfields) => pfields,
            _ => {
                return Err(DocError {});
            },
        };
        proof {
            lemma_fields_view_len(pfields@);
        }
        if pfields.len() != 2 {
            return Err(DocError {});
        }
        let albedo = decode_colour(get_field(pfields, 0, "albedo")?)?;
        let fuzz = decode_scalar(get_field(pfields, 1, "fuzz")?)?;
        let d = Material::Metal { albedo, fuzz };
        proof {
            assert(fields_view(pfields@) =~= spec_doc_material(d@)->Record_0[0].value->Record_0);
            assert(fields_view(fields@) =~= spec_doc_material(d@)->Record_0);
        }
        Ok(d)
    } else if crate::text::str_eq(tag.as_str(), "Dielectric") {
        let pfields = match payload {
            DocValue::Record(pfields) => pfields,
            _ => {
                return Err(DocError {});
            },
        };
        proof {
            lemma_fields_view_len(pfields@);
        }
        if pfields.len() != 1 {
            return Err(DocError {});
        }
        let refractive_index = decode_scalar(get_field(pfields, 0, "refractive_index")?)?;
        let d = Material::Dielectric { refractive_index };
        proof {
            assert(fields_view(pfields@) =~= spec_doc_material(d@)->Record_0[0].value->Record_0);
            assert(fields_view(fields@) =~= spec_doc_material(d@)->Record_0);
        }
        Ok(d)
    } else if crate::text::str_eq(tag.as_str(), "DiffuseLight") {
        let pfields = match payload {
            DocValue::Record(pfields) => pfields,
            _ => {
                return Err(DocError {});
            },
        };
        proof {
            lemma_fields_view_len(pfields@);
        }
        if pfields.len() != 1 {
            return Err(DocError {});
        }
        let emit = decode_texture(get_field(pfields, 0, "emit")?)?;
        let d = Material::DiffuseLight { emit };
        proof {
            assert(fields_view(pfields@) =~= spec_doc_material(d@)->Record_0[0].value->Record_0);
            assert(fields_view(fields@) =~= spec_doc_material(d@)->Record_0);
        }
        Ok(d)
    } else if crate::text::str_eq(tag.as_str(), "Isotropic") {
        let pfields = match payload {
            DocValue::Record(pfields) => pfields,
            _ => {
                return Err(DocError {});
            },
        };
        proof {
            lemma_fields_view_len(pfields@);
        }
        if pfields.len() != 1 {
            return Err(DocError {});
        }
        let albedo = decode_texture(get_field(pfields, 0, "albedo")?)?;
        let d = Material::Isotropic { albedo };
        proof {
            assert(fields_view(pfields@) =~= spec_doc_material(d@)->Record_0[0].value->Record_0);
            assert(fields_view(fields@) =~= spec_doc_material(d@)->Record_0);
        }
        Ok(d)
    } else {
        proof {
            assert(tag@ != "Lambertian"@);
            assert(tag@ != "Metal"@);
            assert(fields_view(fields@)[0].name == tag@);
            assert(doc@ == DocView::Record(fields_view(fields@)));
            assert forall|x: MaterialView| doc@ != spec_doc_material(x) by {}
        }
        Err(DocError {})
    }
}


/// Decodes the payload of a `Sphere`-tagged geometry record.
fn decode_sphere_payload(payload: &DocValue) -> (r: Result<Geometry, DocError>)
    ensures
        forall|x: GeometryView|
            #![trigger spec_doc_geometry(x)]
            x is Sphere && payload@ == spec_doc_geometry(x)->Record_0[0].value ==> r is Ok,
        is_sphere_payload_encoding(payload@) ==> r is Ok,
        r matches Ok(d) ==> (d@ matches GeometryView::Sphere { centre, radius, material }
            && payload@ == spec_doc_sphere_payload(centre, radius, material)),
{
    let pfields = match payload {
        DocValue::Record(pfields) => pfields,
        _ => {
            return Err(DocError {});
        },
    };
    proof {
        lemma_fields_view_len(pfields@);
    }
    if pfields.len() != 3 {
        return Err(DocError {});
    }
    let centre = decode_vector(get_field(pfields, 0, "centre")?)?;
    let radius = decode_scalar(get_field(pfields, 1, "radius")?)?;
    let material = decode_material(get_field(pfields, 2, "material")?)?;
    let d = Geometry::Sphere(Box::new(Sphere { centre, radius, material }));
    proof {
        assert(fields_view(pfields@) =~= spec_doc_sphere_payload(centre, radius, material@)->Record_0);
    }
    Ok(d)
}

/// Decodes the payload of a `MovingSphere`-tagged geometry record.
fn decode_moving_sphere_payload(payload: &DocValue) -> (r: Result<Geometry, DocError>)
    ensures
        forall|x: GeometryView|
            #![trigger spec_doc_geometry(x)]
            x is MovingSphere && payload@ == spec_doc_geometry(x)->Record_0[0].value ==> r
                is Ok,
        is_moving_sphere_payload_encoding(payload@) ==> r is Ok,
        r matches Ok(d) ==> (d@ matches GeometryView::MovingSphere {
            centre_start,
            time_start,
            centre_end,
            time_end,
            radius,
            material,
        } && payload@ == spec_doc_moving_sphere_payload(
            centre_start,
            time_start,
            centre_end,
            time_end,
            radius,
            material,
        )),
{
    let pfields = match payload {
        DocValue::Record(pfields) => pfields,
        _ => {
            return Err(DocError {});
        },
    };
    proof {
        lemma_fields_view_len(pfields@);
    }
    if pfields.len() != 6 {
        return Err(DocError {});
    }
    let centre_start = decode_vector(get_field(pfields, 0, "centre_start")?)?;
    let time_start = decode_scalar(get_field(pfields, 1, "time_start")?)?;
    let centre_end = decode_vector(get_field(pfields, 2, "centre_end")?)?;
    let time_end = decode_scalar(get_field(pfields, 3, "time_end")?)?;
    let radius = decode_scalar(get_field(pfields, 4, "radius")?)?;
    let material = decode_material(get_field(pfields, 5, "material")?)?;
    let d = Geometry::MovingSphere(Box::new(MovingSphere { centre_start, time_start, centre_end, time_end, radius, material }));
    proof {
        assert(fields_view(pfields@) =~= (spec_doc_moving_sphere_payload(centre_start, time_start, centre_end, time_end, radius, material@))->Record_0);
    }
    Ok(d)
}

/// Decodes the payload of a `XyRect`-tagged geometry record.
fn decode_xy_rect_payload(payload: &DocValue) -> (r: Result<Geometry, DocError>)
    ensures
        forall|x: GeometryView|
            #![trigger spec_doc_geometry(x)]
            x is XyRect && payload@ == spec_doc_geometry(x)->Record_0[0].value ==> r is Ok,
        is_rect_payload_encoding(payload@, "x0"@, "x1"@, "y0"@, "y1"@) ==> r is Ok,
        r matches Ok(d) ==> (d@ matches GeometryView::XyRect { x0, x1, y0, y1, k, material }
            && payload@ == spec_doc_rect_payload(
            "x0"@,
            x0,
            "x1"@,
            x1,
            "y0"@,
            y0,
            "y1"@,
            y1,
            k,
            material,
        )),
{
    let pfields = match payload {
        DocValue::Record(pfields) => pfields,
        _ => {
            return Err(DocError {});
        },
    };
    proof {
        lemma_fields_view_len(pfields@);
    }
    if pfields.len() != 6 {
        return Err(DocError {});
    }
    let x0 = decode_scalar(get_field(pfields, 0, "x0")?)?;
    let x1 = decode_scalar(get_field(pfields, 1, "x1")?)?;
    let y0 = decode_scalar(get_field(pfields, 2, "y0")?)?;
    let y1 = decode_scalar(get_field(pfields, 3, "y1")?)?;
    let k = decode_scalar(get_field(pfields, 4, "k")?)?;
    let material = decode_material(get_field(pfields, 5, "material")?)?;
    let d = Geometry::XyRect(Box::new(XyRect { x0, x1, y0, y1, k, material }));
    proof {
        assert(fields_view(pfields@) =~= (spec_doc_rect_payload("x0"@, x0, "x1"@, x1, "y0"@, y0, "y1"@, y1, k, material@))->Record_0);
    }
    Ok(d)
}

/// Decodes the payload of a `XzRect`-tagged geometry record.
fn decode_xz_rect_payload(payload: &DocValue) -> (r: Result<Geometry, DocError>)
    ensures
        forall|x: GeometryView|
            #![trigger spec_doc_geometry(x)]
            x is XzRect && payload@ == spec_doc_geometry(x)->Record_0[0].value ==> r is Ok,
        is_rect_payload_encoding(payload@, "x0"@, "x1"@, "z0"@, "z1"@) ==> r is Ok,
        r matches Ok(d) ==> (d@ matches GeometryView::XzRect { x0, x1, z0, z1, k, material }
            && payload@ == spec_doc_rect_payload(
            "x0"@,
            x0,
            "x1"@,
            x1,
            "z0"@,
            z0,
            "z1"@,
            z1,
            k,
            material,
        )),
{
    let pfields = match payload {
        DocValue::Record(pfields) => pfields,
        _ => {
            return Err(DocError {});
        },
    };
    proof {
        lemma_fields_view_len(pfields@);
    }
    if pfields.len() != 6 {
        return Err(DocError {});
    }
    let x0 = decode_scalar(get_field(pfields, 0, "x0")?)?;
    let x1 = decode_scalar(get_field(pfields, 1, "x1")?)?;
    let z0 = decode_scalar(get_field(pfields, 2, "z0")?)?;
    let z1 = decode_scalar(get_field(pfields, 3, "z1")?)?;
    let k = decode_scalar(get_field(pfields, 4, "k")?)?;
    let material = decode_material(get_field(pfields, 5, "material")?)?;
    let d = Geometry::XzRect(Box::new(XzRect { x0, x1, z0, z1, k, material }));
    proof {
        assert(fields_view(pfields@) =~= (spec_doc_rect_payload("x0"@, x0, "x1"@, x1, "z0"@, z0, "z1"@, z1, k, material@))->Record_0);
    }
    Ok(d)
}

/// Decodes the payload of a `YzRect`-tagged geometry record.
fn decode_yz_rect_payload(payload: &DocValue) -> (r: Result<Geometry, DocError>)
    ensures
        forall|x: GeometryView|
            #![trigger spec_doc_geometry(x)]
            x is YzRect && payload@ == spec_doc_geometry(x)->Record_0[0].value ==> r is Ok,
        is_rect_payload_encoding(payload@, "y0"@, "y1"@, "z0"@, "z1"@) ==> r is Ok,
        r matches Ok(d) ==> (d@ matches GeometryView::YzRect { y0, y1, z0, z1, k, material }
            && payload@ == spec_doc_rect_payload(
            "y0"@,
            y0,
            "y1"@,
            y1,
            "z0"@,
            z0,
            "z1"@,
            z1,
            k,
            material,
        )),
{
    let pfields = match payload {
        DocValue::Record(pfields) => pfields,
        _ => {
            return Err(DocError {});
        },
    };
    proof {
        lemma_fields_view_len(pfields@);
    }
    if pfields.len() != 6 {
        return Err(DocError {});
    }
    let y0 = decode_scalar(get_field(pfields, 0, "y0")?)?;
    let y1 = decode_scalar(get_field(pfields, 1, "y1")?)?;
    let z0 = decode_scalar(get_field(pfields, 2, "z0")?)?;
    let z1 = decode_scalar(get_field(pfields, 3, "z1")?)?;
    let k = decode_scalar(get_field(pfields, 4, "k")?)?;
    let material = decode_material(get_field(pfields, 5, "material")?)?;
    let d = Geometry::YzRect(Box::new(YzRect { y0, y1, z0, z1, k, material }));
    proof {
        assert(fields_view(pfields@) =~= (spec_doc_rect_payload("y0"@, y0, "y1"@, y1, "z0"@, z0, "z1"@, z1, k, material@))->Record_0);
    }
    Ok(d)
}

/// Decodes the payload of a `Cube`-tagged geometry record.
fn decode_cube_payload(payload: &DocValue) -> (r: Result<Geometry, DocError>)
    ensures
        r matches Ok(d) ==> (d@ matches GeometryView::Cube { rectangles, pmin, pmax } && payload@
            == spec_doc_cube_payload(spec_doc_geometries(rectangles), pmin, pmax)),
        is_cube_payload_encoding(payload@) ==> r is Ok,
    decreases payload@, 2int,
{
    let pfields = match payload {
        DocValue::Record(pfields) => pfields,
        _ => {
            return Err(DocError {});
        },
    };
    proof {
        lemma_fields_view_len(pfields@);
    }
    if pfields.len() != 3 {
        return Err(DocError {});
    }
    let pmin = decode_vector(get_field(pfields, 1, "pmin")?)?;
    let pmax = decode_vector(get_field(pfields, 2, "pmax")?)?;
    let rectangles_doc = get_field(pfields, 0, "rectangles")?;
    let items = match rectangles_doc {
        DocValue::Sequence(items) => items,
        _ => {
            return Err(DocError {});
        },
    };
    proof {
        assert(payload@->Record_0 == fields_view(pfields@));
        lemma_doc_record_field_decreases(payload@, 0);
        lemma_doc_sequence_decreases(rectangles_doc@);
        assert(rectangles_doc@->Sequence_0 == docs_view(items@));
    }
    let rectangles = match decode_geometry_list(items) {
        Ok(out) => out,
        Err(e) => {
            return Err(e);
        },
    };
    proof {
        crate::geometry::lemma_geometries_view_len(rectangles@);
    }
    let d = Geometry::Cube(Box::new(Cube { rectangles, pmin, pmax }));
    proof {
        assert(fields_view(pfields@) =~= spec_doc_cube_payload(
            spec_doc_geometries(geometries_view(rectangles@)),
            pmin,
            pmax,
        )->Record_0);
    }
    Ok(d)
}

/// Decodes the payload of a `ConstantMedium`-tagged geometry record.
fn decode_medium_payload(payload: &DocValue) -> (r: Result<Geometry, DocError>)
    ensures
        r matches Ok(d) ==> (d@ matches GeometryView::ConstantMedium {
            boundary,
            density,
            material,
        } && payload@ == spec_doc_medium_payload(spec_doc_geometry(*boundary), density, material)),
        is_medium_payload_encoding(payload@) ==> r is Ok,
    decreases payload@, 2int,
{
    let pfields = match payload {
        DocValue::Record(pfields) => pfields,
        _ => {
            return Err(DocError {});
        },
    };
    proof {
        lemma_fields_view_len(pfields@);
    }
    if pfields.len() != 3 {
        return Err(DocError {});
    }
    let density = decode_scalar(get_field(pfields, 1, "density")?)?;
    let material = decode_material(get_field(pfields, 2, "material")?)?;
    let inner_doc = get_field(pfields, 0, "boundary")?;
    proof {
        assert(payload@->Record_0 == fields_view(pfields@));
        lemma_doc_record_field_decreases(payload@, 0);
    }
    let inner = match decode_geometry(inner_doc) {
        Ok(g0) => g0,
        Err(e) => {
            return Err(e);
        },
    };
    let d = Geometry::ConstantMedium(Box::new(ConstantMedium { boundary: Box::new(inner), density, material }));
    proof {
        assert(fields_view(pfields@) =~= (spec_doc_medium_payload(spec_doc_geometry(inner@), density, material@))->Record_0);
    }
    Ok(d)
}

/// Decodes the payload of a `Flip`-tagged geometry record.
fn decode_flip_payload(payload: &DocValue) -> (r: Result<Geometry, DocError>)
    ensures
        r matches Ok(d) ==> (d@ matches GeometryView::Flip { geometry } && payload@
            == spec_doc_flip_payload(spec_doc_geometry(*geometry))),
        is_flip_payload_encoding(payload@) ==> r is Ok,
    decreases payload@, 2int,
{
    let pfields = match payload {
        DocValue::Record(pfields) => pfields,
        _ => {
            return Err(DocError {});
        },
    };
    proof {
        lemma_fields_view_len(pfields@);
    }
    if pfields.len() != 1 {
        return Err(DocError {});
    }
    let inner_doc = get_field(pfields, 0, "geometry")?;
    proof {
        assert(payload@->Record_0 == fields_view(pfields@));
        lemma_doc_record_field_decreases(payload@, 0);
    }
    let inner = match decode_geometry(inner_doc) {
        Ok(g0) => g0,
        Err(e) => {
            return Err(e);
        },
    };

    let d = Geometry::Flip(Box::new(FlipNormals { geometry: Box::new(inner) }));
    proof {
        assert(fields_view(pfields@) =~= (spec_doc_flip_payload(spec_doc_geometry(inner@)))->Record_0);
    }
    Ok(d)
}

/// Decodes the payload of a `Translate`-tagged geometry record.
fn decode_translate_payload(payload: &DocValue) -> (r: Result<Geometry, DocError>)
    ensures
        r matches Ok(d) ==> (d@ matches GeometryView::Translate { geometry, offset } && payload@
            == spec_doc_translate_payload(spec_doc_geometry(*geometry), offset)),
        is_translate_payload_encoding(payload@) ==> r is Ok,
    decreases payload@, 2int,
{
    let pfields = match payload {
        DocValue::Record(pfields) => pfields,
        _ => {
            return Err(DocError {});
        },
    };
    proof {
        lemma_fields_view_len(pfields@);
    }
    if pfields.len() != 2 {
        return Err(DocError {});
    }
    let offset = decode_vector(get_field(pfields, 1, "offset")?)?;
    let inner_doc = get_field(pfields, 0, "geometry")?;
    proof {
        assert(payload@->Record_0 == fields_view(pfields@));
        lemma_doc_record_field_decreases(payload@, 0);
    }
    let inner = match decode_geometry(inner_doc) {
        Ok(g0) => g0,
        Err(e) => {
            return Err(e);
        },
    };
    let d = Geometry::Translate(Box::new(Translate { geometry: Box::new(inner), offset }));
    proof {
        assert(fields_view(pfields@) =~= (spec_doc_translate_payload(spec_doc_geometry(inner@), offset))->Record_0);
    }
    Ok(d)
}

/// Decodes the payload of a `RotateY`-tagged geometry record.
fn decode_rotate_payload(payload: &DocValue) -> (r: Result<Geometry, DocError>)
    ensures
        r matches Ok(d) ==> (d@ matches GeometryView::RotateY { geometry, angle } && payload@
            == spec_doc_rotate_payload(spec_doc_geometry(*geometry), angle)),
        is_rotate_payload_encoding(payload@) ==> r is Ok,
    decreases payload@, 2int,
{
    let pfields = match payload {
        DocValue::Record(pfields) => pfields,
        _ => {
            return Err(DocError {});
        },
    };
    proof {
        lemma_fields_view_len(pfields@);
    }
    if pfields.len() != 2 {
        return Err(DocError {});
    }
    let angle = decode_scalar(get_field(pfields, 1, "angle")?)?;
    let inner_doc = get_field(pfields, 0, "geometry")?;
    proof {
        assert(payload@->Record_0 == fields_view(pfields@));
        lemma_doc_record_field_decreases(payload@, 0);
    }
    let inner = match decode_geometry(inner_doc) {
        Ok(g0) => g0,
        Err(e) => {
            return Err(e);
        },
    };
    let d = Geometry::RotateY(Box::new(RotateY { geometry: Box::new(inner), angle }));
    proof {
        assert(fields_view(pfields@) =~= (spec_doc_rotate_payload(spec_doc_geometry(inner@), angle))->Record_0);
    }
    Ok(d)
}

/// The document image of an optional hierarchy child.
pub open spec fn spec_doc_opt_geometry(o: Option<Box<GeometryView>>) -> DocView {
    match o {
        Some(child) => spec_doc_geometry(*child),
        None => DocView::Nothing,
    }
}

/// The ghost image of an optional hierarchy child.
pub open spec fn opt_geometry_view(o: Option<Box<Geometry>>) -> Option<Box<GeometryView>> {
    match o {
        Some(child) => Some(Box::new(geometry_view(*child))),
        None => None,
    }
}

/// Decodes one optional hierarchy child.
fn decode_opt_geometry(doc: &DocValue) -> (r: Result<Option<Box<Geometry>>, DocError>)
    ensures
        r matches Ok(d) ==> doc@ == spec_doc_opt_geometry(opt_geometry_view(d)),
        is_opt_geometry_encoding(doc@) ==> r is Ok,
    decreases doc@, 2int,
{
    match doc {
        DocValue::Nothing => Ok(None),
        _ => {
            proof {
                lemma_geometry_doc_is_record();
            }
            match decode_geometry(doc) {
                Ok(child) => Ok(Some(Box::new(child))),
                Err(e) => Err(e),
            }
        },
    }
}

/// Decodes the payload of a `Bvh`-tagged geometry record.
fn decode_bvh_payload(payload: &DocValue) -> (r: Result<Geometry, DocError>)
    ensures
        r matches Ok(d) ==> (d@ matches GeometryView::Bvh { left, right, bounding_box } && payload@
            == spec_doc_bvh_payload(
            spec_doc_opt_geometry(left),
            spec_doc_opt_geometry(right),
            bounding_box,
        )),
        is_bvh_payload_encoding(payload@) ==> r is Ok,
    decreases payload@, 2int,
{
    let pfields = match payload {
        DocValue::Record(pfields) => pfields,
        _ => {
            return Err(DocError {});
        },
    };
    proof {
        lemma_fields_view_len(pfields@);
    }
    if pfields.len() != 3 {
        return Err(DocError {});
    }
    let bounding_box = decode_aabb(get_field(pfields, 2, "bounding_box")?)?;
    let left_doc = get_field(pfields, 0, "left")?;
    let right_doc = get_field(pfields, 1, "right")?;
    proof {
        assert(payload@->Record_0 == fields_view(pfields@));
        lemma_doc_record_field_decreases(payload@, 0);
        lemma_doc_record_field_decreases(payload@, 1);
    }
    let left = match decode_opt_geometry(left_doc) {
        Ok(o) => o,
        Err(e) => {
            return Err(e);
        },
    };
    let right = match decode_opt_geometry(right_doc) {
        Ok(o) => o,
        Err(e) => {
            return Err(e);
        },
    };
    let d = Geometry::Bvh(Box::new(BoundingVolumeHierarchyNode { left, right, bounding_box }));
    proof {
        assert(d@ == (GeometryView::Bvh {
            left: opt_geometry_view(left),
            right: opt_geometry_view(right),
            bounding_box,
        }));
        assert(fields_view(pfields@) =~= spec_doc_bvh_payload(
            spec_doc_opt_geometry(opt_geometry_view(left)),
            spec_doc_opt_geometry(opt_geometry_view(right)),
            bounding_box,
        )->Record_0);
    }
    Ok(d)
}

/// Decodes a geometry: whatever it accepts is a geometry whose encoding
/// is exactly the given document, and every geometry encoding is
/// accepted.
fn decode_geometry(doc: &DocValue) -> (r: Result<Geometry, DocError>)
    ensures
        r matches Ok(d) ==> doc@ == spec_doc_geometry(d@),
        is_geometry_encoding(doc@) ==> r is Ok,
    decreases doc@, 1int,
{
    proof {
        lemma_geometry_tags_distinct();
        lemma_geometry_doc_is_record();
    }
    let fields = match doc {
        DocValue::Record(fields) => fields,
        _ => {
            return Err(DocError {});
        },
    };
    proof {
        lemma_fields_view_len(fields@);
    }
    if fields.len() != 1 {
        return Err(DocError {});
    }
    let tag = &fields[0].name;
    let payload = &fields[0].value;
    proof {
        assert(payload@ == doc@->Record_0[0].value);
        lemma_doc_record_field_decreases(doc@, 0);
    }
    if crate::text::str_eq(tag.as_str(), "Sphere") {
        let d = match decode_sphere_payload(payload) {
            Ok(d) => d,
            Err(e) => {
                return Err(e);
            },
        };
        proof {
            assert(fields_view(fields@) =~= spec_doc_geometry(d@)->Record_0);
        }
        Ok(d)
    } else if crate::text::str_eq(tag.as_str(), "MovingSphere") {
        let d = match decode_moving_sphere_payload(payload) {
            Ok(d) => d,
            Err(e) => {
                return Err(e);
            },
        };
        proof {
            assert(fields_view(fields@) =~= spec_doc_geometry(d@)->Record_0);
        }
        Ok(d)
    } else if crate::text::str_eq(tag.as_str(), "XyRect") {
        let d = match decode_xy_rect_payload(payload) {
            Ok(d) => d,
            Err(e) => {
                return Err(e);
            },
        };
        proof {
            assert(fields_view(fields@) =~= spec_doc_geometry(d@)->Record_0);
        }
        Ok(d)
    } else if crate::text::str_eq(tag.as_str(), "XzRect") {
        let d = match decode_xz_rect_payload(payload) {
            Ok(d) => d,
            Err(e) => {
                return Err(e);
            },
        };
        proof {
            assert(fields_view(fields@) =~= spec_doc_geometry(d@)->Record_0);
        }
        Ok(d)
    } else if crate::text::str_eq(tag.as_str(), "YzRect") {
        let d = match decode_yz_rect_payload(payload) {
            Ok(d) => d,
            Err(e) => {
                return Err(e);
            },
        };
        proof {
            assert(fields_view(fields@) =~= spec_doc_geometry(d@)->Record_0);
        }
        Ok(d)
    } else if crate::text::str_eq(tag.as_str(), "Cube") {
        let d = match decode_cube_payload(payload) {
            Ok(d) => d,
            Err(e) => {
                return Err(e);
            },
        };
        proof {
            assert(fields_view(fields@) =~= spec_doc_geometry(d@)->Record_0);
        }
        Ok(d)
    } else {
        decode_geometry_composites(doc, fields)
    }
}

/// Decodes a geometry whose tag names a composite variant (a wrapper, a
/// medium or a hierarchy node).
fn decode_geometry_composites(doc: &DocValue, fields: &Vec<DocField>) -> (r: Result<
    Geometry,
    DocError,
>)
    requires
        doc@ is Record,
        doc@->Record_0 == fields_view(fields@),
        fields@.len() == 1,
        fields_view(fields@)[0].name != "Sphere"@,
        fields_view(fields@)[0].name != "MovingSphere"@,
        fields_view(fields@)[0].name != "XyRect"@,
        fields_view(fields@)[0].name != "XzRect"@,
        fields_view(fields@)[0].name != "YzRect"@,
        fields_view(fields@)[0].name != "Cube"@,
    ensures
        r matches Ok(d) ==> doc@ == spec_doc_geometry(d@),
        is_geometry_encoding(doc@) ==> r is Ok,
    decreases doc@, 0int,
{
    proof {
        lemma_geometry_tags_distinct();
        lemma_geometry_doc_is_record();
        lemma_fields_view_len(fields@);
    }
    let tag = &fields[0].name;
    let payload = &fields[0].value;
    proof {
        assert(payload@ == doc@->Record_0[0].value);
        lemma_doc_record_field_decreases(doc@, 0);
    }
    if crate::text::str_eq(tag.as_str(), "ConstantMedium") {
        let d = match decode_medium_payload(payload) {
            Ok(d) => d,
            Err(e) => {
                return Err(e);
            },
        };
        proof {
            assert(fields_view(fields@) =~= spec_doc_geometry(d@)->Record_0);
        }
        Ok(d)
    } else if crate::text::str_eq(tag.as_str(), "Flip") {
        let d = match decode_flip_payload(payload) {
            Ok(d) => d,
            Err(e) => {
                return Err(e);
            },
        };
        proof {
            assert(fields_view(fields@) =~= spec_doc_geometry(d@)->Record_0);
        }
        Ok(d)
    } else if crate::text::str_eq(tag.as_str(), "Translate") {
        let d = match decode_translate_payload(payload) {
            Ok(d) => d,
            Err(e) => {
                return Err(e);
            },
        };
        proof {
            assert(fields_view(fields@) =~= spec_doc_geometry(d@)->Record_0);
        }
        Ok(d)
    } else if crate::text::str_eq(tag.as_str(), "RotateY") {
        let d = match decode_rotate_payload(payload) {
            Ok(d) => d,
            Err(e) => {
                return Err(e);
            },
        };
        proof {
            assert(fields_view(fields@) =~= spec_doc_geometry(d@)->Record_0);
        }
        Ok(d)
    } else if crate::text::str_eq(tag.as_str(), "Bvh") {
        let d = match decode_bvh_payload(payload) {
            Ok(d) => d,
            Err(e) => {
                return Err(e);
            },
        };
        proof {
            assert(fields_view(fields@) =~= spec_doc_geometry(d@)->Record_0);
        }
        Ok(d)
    } else {
        Err(DocError {})
    }
}

/// Decodes a list of geometries.
#[verifier::loop_isolation(false)]
fn decode_geometry_list(items: &Vec<DocValue>) -> (r: Result<Vec<Geometry>, DocError>)
    ensures
        r matches Ok(d) ==> docs_view(items@) == spec_doc_geometries(geometries_view(d@)),
        is_geometries_encoding(docs_view(items@)) ==> r is Ok,
    decreases docs_view(items@), 0int,
{
    proof {
        lemma_docs_view_len(items@);
    }
    let n = items.len();
    let mut out: Vec<Geometry> = Vec::new();
    let mut i: usize = 0;
    while i < n
        invariant
            i <= n,
            out@.len() == i,
            forall|j: int|
                0 <= j < i ==> docs_view(items@)[j] == spec_doc_geometry(
                    geometries_view(out@)[j],
                ),
        decreases n - i,
    {
        proof {
            assert(decreases_to!(docs_view(items@) => docs_view(items@)[i as int]));
        }
        match decode_geometry(&items[i]) {
            Ok(g0) => {
                proof {
                    crate::geometry::lemma_geometries_view_push(out@, g0);
                    lemma_geometries_view_len(out@.push(g0));
                }
                out.push(g0);
            },
            Err(e) => {
                return Err(e);
            },
        }
        i = i + 1;
    }
    proof {
        lemma_geometries_view_len(out@);
        lemma_spec_doc_geometries_len(geometries_view(out@));
        assert(docs_view(items@) =~= spec_doc_geometries(geometries_view(out@)));
    }
    Ok(out)
}


/// Decodes a saved world: every world's document is accepted, and what
/// is accepted is exactly the world that was encoded (the encoding is
/// injective by [`lemma_doc_world_injective`]).
pub fn decode_world(doc: &DocValue) -> (r: Result<WorldSave, DocError>)
    ensures
        r matches Ok(d) ==> doc@ == spec_doc_world(d@),
        is_world_encoding(doc@) ==> r is Ok,
        forall|w: WorldSaveView| doc@ == #[trigger] spec_doc_world(w) ==> r is Ok,
        forall|w: WorldSaveView|
            doc@ == #[trigger] spec_doc_world(w) ==> (r matches Ok(d) ==> d@ == w),
{
    proof {
        assert forall|w: WorldSaveView|
            doc@ == #[trigger] spec_doc_world(w) implies is_world_encoding(doc@) by {
            lemma_world_doc_well_formed(w);
        }
    }
    let fields = match doc {
        DocValue::Record(fields) => fields,
        _ => {
            return Err(DocError {});
        },
    };
    proof {
        lemma_fields_view_len(fields@);
    }
    if fields.len() != 2 {
        return Err(DocError {});
    }
    let background = decode_background(get_field(fields, 0, "background")?)?;
    let geometries_doc = get_field(fields, 1, "geometries")?;
    let items = match geometries_doc {
        DocValue::Sequence(items) => items,
        _ => {
            return Err(DocError {});
        },
    };
    let geometries = decode_geometry_list(items)?;
    let d = WorldSave::new(background, geometries);
    proof {
        assert(fields_view(fields@) =~= spec_doc_world(d@)->Record_0);
        assert forall|w: WorldSaveView| doc@ == #[trigger] spec_doc_world(w) implies d@ == w by {
            lemma_doc_world_injective(d@, w);
        }
    }
    Ok(d)
}

/// Decodes a saved configuration: whatever it accepts is a configuration
/// whose encoding is exactly the given document, which by
/// [`lemma_doc_config_injective`] pins the decoded value down to the one
/// that was encoded.
pub fn decode_config(doc: &DocValue) -> (r: Result<ConfigSave, DocError>)
    ensures
        r matches Ok(d) ==> doc@ == spec_doc_config(d@),
        is_config_encoding(doc@) ==> r is Ok,
        forall|c: ConfigSaveView| doc@ == #[trigger] spec_doc_config(c) ==> r is Ok,
        forall|c: ConfigSaveView|
            doc@ == #[trigger] spec_doc_config(c) ==> (r matches Ok(d) ==> d@ == c),
{
    proof {
        assert forall|c: ConfigSaveView|
            doc@ == #[trigger] spec_doc_config(c) implies is_config_encoding(doc@) by {
            lemma_config_doc_well_formed(c);
        }
    }
    let fields = match doc {
        DocValue::Record(fields) => fields,
        _ => {
            return Err(DocError {});
        },
    };
    proof {
        lemma_fields_view_len(fields@);
    }
    if fields.len() != 3 {
        return Err(DocError {});
    }
    let aspect = decode_scalar(get_field(fields, 0, "aspect")?)?;
    let camera = decode_camera(get_field(fields, 1, "camera")?)?;
    let world = decode_world(get_field(fields, 2, "world")?)?;
    let d = ConfigSave::new(aspect, camera, world);
    proof {
        assert(fields_view(fields@) =~= spec_doc_config(d@)->Record_0);
        assert forall|c: ConfigSaveView| doc@ == #[trigger] spec_doc_config(c) implies d@ == c by {
            lemma_doc_config_injective(d@, c);
        }
    }
    Ok(d)
}

/// Two colours with the same document image are the same colour.
proof fn lemma_doc_colour_injective(a: Colour, b: Colour)
    requires
        spec_doc_colour(a) == spec_doc_colour(b),
    ensures
        a == b,
{
    assert(spec_doc_colour(a)->Record_0[0] == spec_doc_colour(b)->Record_0[0]);
    assert(spec_doc_colour(a)->Record_0[1] == spec_doc_colour(b)->Record_0[1]);
    assert(spec_doc_colour(a)->Record_0[2] == spec_doc_colour(b)->Record_0[2]);
}

/// Two vectors with the same document image are the same vector.
proof fn lemma_doc_vector_injective(a: Vector, b: Vector)
    requires
        spec_doc_vector(a) == spec_doc_vector(b),
    ensures
        a == b,
{
    assert(spec_doc_vector(a)->Record_0[0] == spec_doc_vector(b)->Record_0[0]);
    assert(spec_doc_vector(a)->Record_0[1] == spec_doc_vector(b)->Record_0[1]);
    assert(spec_doc_vector(a)->Record_0[2] == spec_doc_vector(b)->Record_0[2]);
}

/// Two colour lists with the same document image are the same list.
proof fn lemma_doc_colours_injective(a: Seq<Colour>, b: Seq<Colour>)
    requires
        spec_doc_colours(a) == spec_doc_colours(b),
    ensures
        a == b,
{
    assert(spec_doc_colours(a).len() == a.len());
    assert(spec_doc_colours(b).len() == b.len());
    assert(a.len() == b.len());
    assert forall|i: int| 0 <= i < a.len() implies a[i] == b[i] by {
        assert(spec_doc_colours(a)[i] == spec_doc_colour(a[i]));
        assert(spec_doc_colours(b)[i] == spec_doc_colour(b[i]));
        lemma_doc_colour_injective(a[i], b[i]);
    }
    assert(a =~= b);
}

/// Two index lists with the same document image are the same list.
proof fn lemma_doc_counts_injective(a: Seq<usize>, b: Seq<usize>)
    requires
        spec_doc_counts(a) == spec_doc_counts(b),
    ensures
        a == b,
{
    assert(spec_doc_counts(a).len() == a.len());
    assert(spec_doc_counts(b).len() == b.len());
    assert(a.len() == b.len());
    assert forall|i: int| 0 <= i < a.len() implies a[i] == b[i] by {
        assert(spec_doc_counts(a)[i] == DocView::Count(a[i] as u64));
        assert(spec_doc_counts(b)[i] == DocView::Count(b[i] as u64));
    }
    assert(a =~= b);
}

/// Two textures with the same document image are the same texture.
proof fn lemma_doc_texture_injective(a: TextureView, b: TextureView)
    requires
        spec_doc_texture(a) == spec_doc_texture(b),
    ensures
        a == b,
    decreases a,
{
    lemma_texture_tags_distinct();
    assert(spec_doc_texture(a)->Record_0[0].name == spec_doc_texture(b)->Record_0[0].name);
    assert(spec_doc_texture(a)->Record_0[0].value == spec_doc_texture(b)->Record_0[0].value);
    let av = spec_doc_texture(a)->Record_0[0].value;
    let bv = spec_doc_texture(b)->Record_0[0].value;
    match a {
        TextureView::Constant { colour } => {
            assert(b is Constant);
            assert(av->Record_0[0].value == bv->Record_0[0].value);
            lemma_doc_colour_injective(colour, b->Constant_colour);
        },
        TextureView::Checker { even, odd } => {
            assert(b is Checker);
            assert(av->Record_0[0].value == bv->Record_0[0].value);
            assert(av->Record_0[1].value == bv->Record_0[1].value);
            lemma_doc_texture_injective(*even, *b->Checker_even);
            lemma_doc_texture_injective(*odd, *b->Checker_odd);
        },
        TextureView::Noise { base_colour, noise_config, .. } => {
            assert(b is Noise);
            assert(av->Record_0[0].value == bv->Record_0[0].value);
            assert(av->Record_0[1].value == bv->Record_0[1].value);
            assert(av->Record_0[2].value == bv->Record_0[2].value);
            assert(av->Record_0[3].value == bv->Record_0[3].value);
            lemma_doc_colour_injective(base_colour, b->Noise_base_colour);
            let other = b->Noise_noise_config;
            assert(spec_doc_noise_config(noise_config)->Record_0[0].value
                == spec_doc_noise_config(other)->Record_0[0].value);
            assert(spec_doc_noise_config(noise_config)->Record_0[1].value
                == spec_doc_noise_config(other)->Record_0[1].value);
            assert(spec_doc_noise_config(noise_config)->Record_0[2].value
                == spec_doc_noise_config(other)->Record_0[2].value);
            assert(spec_doc_noise_config(noise_config)->Record_0[3].value
                == spec_doc_noise_config(other)->Record_0[3].value);
            lemma_doc_colours_injective(noise_config.ran, other.ran);
            lemma_doc_counts_injective(noise_config.perm_x, other.perm_x);
            lemma_doc_counts_injective(noise_config.perm_y, other.perm_y);
            lemma_doc_counts_injective(noise_config.perm_z, other.perm_z);
        },
        TextureView::Image { .. } => {
            assert(b is Image);
            assert(av->Record_0[0].value == bv->Record_0[0].value);
        },
    }
}

/// Two materials with the same document image are the same material.
proof fn lemma_doc_material_injective(a: MaterialView, b: MaterialView)
    requires
        spec_doc_material(a) == spec_doc_material(b),
    ensures
        a == b,
{
    lemma_material_tags_distinct();
    assert(spec_doc_material(a)->Record_0[0].name == spec_doc_material(b)->Record_0[0].name);
    assert(spec_doc_material(a)->Record_0[0].value == spec_doc_material(b)->Record_0[0].value);
    let av = spec_doc_material(a)->Record_0[0].value;
    let bv = spec_doc_material(b)->Record_0[0].value;
    match a {
        MaterialView::Lambertian { albedo } => {
            assert(b is Lambertian);
            assert(av->Record_0[0].value == bv->Record_0[0].value);
            lemma_doc_texture_injective(albedo, b->Lambertian_albedo);
        },
        MaterialView::Metal { albedo, .. } => {
            assert(b is Metal);
            assert(av->Record_0[0].value == bv->Record_0[0].value);
            assert(av->Record_0[1].value == bv->Record_0[1].value);
            lemma_doc_colour_injective(albedo, b->Metal_albedo);
        },
        MaterialView::Dielectric { .. } => {
            assert(b is Dielectric);
            assert(av->Record_0[0].value == bv->Record_0[0].value);
        },
        MaterialView::DiffuseLight { emit } => {
            assert(b is DiffuseLight);
            assert(av->Record_0[0].value == bv->Record_0[0].value);
            lemma_doc_texture_injective(emit, b->DiffuseLight_emit);
        },
        MaterialView::Isotropic { albedo } => {
            assert(b is Isotropic);
            assert(av->Record_0[0].value == bv->Record_0[0].value);
            lemma_doc_texture_injective(albedo, b->Isotropic_albedo);
        },
    }
}

/// Two geometries with the same document image are the same geometry:
/// the scene-document schema loses nothing.
#[verifier::rlimit(40)]
pub proof fn lemma_doc_geometry_injective(a: GeometryView, b: GeometryView)
    requires
        spec_doc_geometry(a) == spec_doc_geometry(b),
    ensures
        a == b,
    decreases a, 1int,
{
    lemma_geometry_tags_distinct();
    lemma_geometry_doc_is_record();
    assert(spec_doc_geometry(a)->Record_0[0].name == spec_doc_geometry(b)->Record_0[0].name);
    assert(spec_doc_geometry(a)->Record_0[0].value == spec_doc_geometry(b)->Record_0[0].value);
    let av = spec_doc_geometry(a)->Record_0[0].value;
    let bv = spec_doc_geometry(b)->Record_0[0].value;
    match a {
        GeometryView::Bvh { left, right, .. } => {
            assert(b is Bvh);
            assert(av->Record_0[0].value == bv->Record_0[0].value);
            assert(av->Record_0[1].value == bv->Record_0[1].value);
            assert(av->Record_0[2].value == bv->Record_0[2].value);
            assert(spec_doc_aabb(a->Bvh_bounding_box)->Record_0[0].value == spec_doc_aabb(
                b->Bvh_bounding_box,
            )->Record_0[0].value);
            assert(spec_doc_aabb(a->Bvh_bounding_box)->Record_0[1].value == spec_doc_aabb(
                b->Bvh_bounding_box,
            )->Record_0[1].value);
            lemma_doc_vector_injective(a->Bvh_bounding_box.min, b->Bvh_bounding_box.min);
            lemma_doc_vector_injective(a->Bvh_bounding_box.max, b->Bvh_bounding_box.max);
            match left {
                Some(child) => {
                    if b->Bvh_left is Some {
                        lemma_doc_geometry_injective(*child, *b->Bvh_left->Some_0);
                    } else {
                        assert(spec_doc_geometry(*child) == DocView::Nothing);
                        assert(false);
                    }
                },
                None => {
                    if b->Bvh_left is Some {
                        assert(spec_doc_geometry(*b->Bvh_left->Some_0) == DocView::Nothing);
                        assert(false);
                    }
                },
            }
            match right {
                Some(child) => {
                    if b->Bvh_right is Some {
                        lemma_doc_geometry_injective(*child, *b->Bvh_right->Some_0);
                    } else {
                        assert(spec_doc_geometry(*child) == DocView::Nothing);
                        assert(false);
                    }
                },
                None => {
                    if b->Bvh_right is Some {
                        assert(spec_doc_geometry(*b->Bvh_right->Some_0) == DocView::Nothing);
                        assert(false);
                    }
                },
            }
        },
        GeometryView::Sphere { centre, material, .. } => {
            assert(b is Sphere);
            assert(av->Record_0[0].value == bv->Record_0[0].value);
            assert(av->Record_0[1].value == bv->Record_0[1].value);
            assert(av->Record_0[2].value == bv->Record_0[2].value);
            lemma_doc_vector_injective(centre, b->Sphere_centre);
            lemma_doc_material_injective(material, b->Sphere_material);
        },
        GeometryView::MovingSphere { centre_start, centre_end, material, .. } => {
            assert(b is MovingSphere);
            assert(av->Record_0[0].value == bv->Record_0[0].value);
            assert(av->Record_0[1].value == bv->Record_0[1].value);
            assert(av->Record_0[2].value == bv->Record_0[2].value);
            assert(av->Record_0[3].value == bv->Record_0[3].value);
            assert(av->Record_0[4].value == bv->Record_0[4].value);
            assert(av->Record_0[5].value == bv->Record_0[5].value);
            lemma_doc_vector_injective(centre_start, b->MovingSphere_centre_start);
            lemma_doc_vector_injective(centre_end, b->MovingSphere_centre_end);
            lemma_doc_material_injective(material, b->MovingSphere_material);
        },
        GeometryView::Cube { rectangles, pmin, pmax } => {
            assert(b is Cube);
            assert(av->Record_0[0].value == bv->Record_0[0].value);
            assert(av->Record_0[1].value == bv->Record_0[1].value);
            assert(av->Record_0[2].value == bv->Record_0[2].value);
            lemma_doc_geometries_injective(rectangles, b->Cube_rectangles);
            lemma_doc_vector_injective(pmin, b->Cube_pmin);
            lemma_doc_vector_injective(pmax, b->Cube_pmax);
        },
        GeometryView::ConstantMedium { boundary, material, .. } => {
            assert(b is ConstantMedium);
            assert(av->Record_0[0].value == bv->Record_0[0].value);
            assert(av->Record_0[1].value == bv->Record_0[1].value);
            assert(av->Record_0[2].value == bv->Record_0[2].value);
            lemma_doc_geometry_injective(*boundary, *b->ConstantMedium_boundary);
            lemma_doc_material_injective(material, b->ConstantMedium_material);
        },
        GeometryView::XyRect { material, .. } => {
            assert(b is XyRect);
            assert(av->Record_0[0].value == bv->Record_0[0].value);
            assert(av->Record_0[1].value == bv->Record_0[1].value);
            assert(av->Record_0[2].value == bv->Record_0[2].value);
            assert(av->Record_0[3].value == bv->Record_0[3].value);
            assert(av->Record_0[4].value == bv->Record_0[4].value);
            assert(av->Record_0[5].value == bv->Record_0[5].value);
            lemma_doc_material_injective(material, b->XyRect_material);
        },
        GeometryView::XzRect { material, .. } => {
            assert(b is XzRect);
            assert(av->Record_0[0].value == bv->Record_0[0].value);
            assert(av->Record_0[1].value == bv->Record_0[1].value);
            assert(av->Record_0[2].value == bv->Record_0[2].value);
            assert(av->Record_0[3].value == bv->Record_0[3].value);
            assert(av->Record_0[4].value == bv->Record_0[4].value);
            assert(av->Record_0[5].value == bv->Record_0[5].value);
            lemma_doc_material_injective(material, b->XzRect_material);
        },
        GeometryView::YzRect { material, .. } => {
            assert(b is YzRect);
            assert(av->Record_0[0].value == bv->Record_0[0].value);
            assert(av->Record_0[1].value == bv->Record_0[1].value);
            assert(av->Record_0[2].value == bv->Record_0[2].value);
            assert(av->Record_0[3].value == bv->Record_0[3].value);
            assert(av->Record_0[4].value == bv->Record_0[4].value);
            assert(av->Record_0[5].value == bv->Record_0[5].value);
            lemma_doc_material_injective(material, b->YzRect_material);
        },
        GeometryView::Flip { geometry } => {
            assert(b is Flip);
            assert(av->Record_0[0].value == bv->Record_0[0].value);
            lemma_doc_geometry_injective(*geometry, *b->Flip_geometry);
        },
        GeometryView::Translate { geometry, offset } => {
            assert(b is Translate);
            assert(av->Record_0[0].value == bv->Record_0[0].value);
            assert(av->Record_0[1].value == bv->Record_0[1].value);
            lemma_doc_geometry_injective(*geometry, *b->Translate_geometry);
            lemma_doc_vector_injective(offset, b->Translate_offset);
        },
        GeometryView::RotateY { geometry, .. } => {
            assert(b is RotateY);
            assert(av->Record_0[0].value == bv->Record_0[0].value);
            assert(av->Record_0[1].value == bv->Record_0[1].value);
            lemma_doc_geometry_injective(*geometry, *b->RotateY_geometry);
        },
    }
}

/// Two geometry lists with the same document images are the same list.
pub proof fn lemma_doc_geometries_injective(a: Seq<GeometryView>, b: Seq<GeometryView>)
    requires
        spec_doc_geometries(a) == spec_doc_geometries(b),
    ensures
        a == b,
    decreases a, 0int,
{
    lemma_spec_doc_geometries_len(a);
    lemma_spec_doc_geometries_len(b);
    if a.len() == 0 {
        assert(a =~= b);
    } else {
        assert(spec_doc_geometries(a).drop_last() =~= spec_doc_geometries(a.drop_last()));
        assert(spec_doc_geometries(b).drop_last() =~= spec_doc_geometries(b.drop_last()));
        lemma_doc_geometries_injective(a.drop_last(), b.drop_last());
        assert(spec_doc_geometries(a).last() == spec_doc_geometry(a.last()));
        assert(spec_doc_geometries(b).last() == spec_doc_geometry(b.last()));
        lemma_doc_geometry_injective(a.last(), b.last());
        assert forall|i: int| 0 <= i < a.len() - 1 implies a[i] == b[i] by {
            assert(a.drop_last()[i] == b.drop_last()[i]);
        }
        assert(a =~= b);
    }
}

/// Two worlds with the same document image are the same world: the
/// geometry count and every geometry, material and texture field is
/// determined by the document.
pub proof fn lemma_doc_world_injective(a: WorldSaveView, b: WorldSaveView)
    requires
        spec_doc_world(a) == spec_doc_world(b),
    ensures
        a == b,
{
    assert(spec_doc_world(a)->Record_0[0].value == spec_doc_world(b)->Record_0[0].value);
    assert(spec_doc_world(a)->Record_0[1].value == spec_doc_world(b)->Record_0[1].value);
    assert(spec_doc_background(a.background)->Record_0[0].value == spec_doc_background(
        b.background,
    )->Record_0[0].value);
    assert(spec_doc_background(a.background)->Record_0[1].value == spec_doc_background(
        b.background,
    )->Record_0[1].value);
    lemma_doc_colour_injective(a.background.top, b.background.top);
    lemma_doc_colour_injective(a.background.bottom, b.background.bottom);
    lemma_doc_geometries_injective(a.geometries, b.geometries);
}

/// The round-trip law of the scene-document schema: a document is the
/// encoding of at most one saved configuration, so decoding what
/// [`encode_config`] wrote gives back exactly the configuration that was
/// saved.
pub proof fn lemma_doc_config_injective(a: ConfigSaveView, b: ConfigSaveView)
    requires
        spec_doc_config(a) == spec_doc_config(b),
    ensures
        a == b,
{
    assert(spec_doc_config(a)->Record_0[0].value == spec_doc_config(b)->Record_0[0].value);
    assert(spec_doc_config(a)->Record_0[1].value == spec_doc_config(b)->Record_0[1].value);
    assert(spec_doc_config(a)->Record_0[2].value == spec_doc_config(b)->Record_0[2].value);
    assert forall|i: int| 0 <= i < 9 implies spec_doc_camera(a.camera)->Record_0[i].value
        == spec_doc_camera(b.camera)->Record_0[i].value by {}
    lemma_doc_vector_injective(a.camera.look_from, b.camera.look_from);
    lemma_doc_vector_injective(a.camera.look_at, b.camera.look_at);
    lemma_doc_vector_injective(a.camera.view_up, b.camera.view_up);
    lemma_doc_world_injective(a.world, b.world);
}


/// What the noise-table encoder writes is a noise-table encoding.
proof fn lemma_noise_doc_well_formed(n: NoiseConfigView)
    ensures
        is_noise_encoding(spec_doc_noise_config(n)),
{
    assert forall|i: int|
        0 <= i < spec_doc_colours(n.ran).len() implies is_colour_encoding(
        #[trigger] spec_doc_colours(n.ran)[i],
    ) by {
        assert(spec_doc_colours(n.ran)[i] == spec_doc_colour(n.ran[i]));
    }
    assert forall|i: int|
        0 <= i < spec_doc_counts(n.perm_x).len() implies is_index_encoding(
        #[trigger] spec_doc_counts(n.perm_x)[i],
    ) by {
        assert(spec_doc_counts(n.perm_x)[i] == DocView::Count(n.perm_x[i] as u64));
    }
    assert forall|i: int|
        0 <= i < spec_doc_counts(n.perm_y).len() implies is_index_encoding(
        #[trigger] spec_doc_counts(n.perm_y)[i],
    ) by {
        assert(spec_doc_counts(n.perm_y)[i] == DocView::Count(n.perm_y[i] as u64));
    }
    assert forall|i: int|
        0 <= i < spec_doc_counts(n.perm_z).len() implies is_index_encoding(
        #[trigger] spec_doc_counts(n.perm_z)[i],
    ) by {
        assert(spec_doc_counts(n.perm_z)[i] == DocView::Count(n.perm_z[i] as u64));
    }
}

/// What the texture encoder writes is a texture encoding.
proof fn lemma_texture_doc_well_formed(t: TextureView)
    ensures
        is_texture_encoding(spec_doc_texture(t)),
    decreases t,
{
    match t {
        TextureView::Constant { .. } => {},
        TextureView::Checker { even, odd } => {
            lemma_texture_doc_well_formed(*even);
            lemma_texture_doc_well_formed(*odd);
        },
        TextureView::Noise { noise_config, .. } => {
            lemma_noise_doc_well_formed(noise_config);
        },
        TextureView::Image { .. } => {},
    }
}

/// What the material encoder writes is a material encoding.
proof fn lemma_material_doc_well_formed(m: MaterialView)
    ensures
        is_material_encoding(spec_doc_material(m)),
{
    match m {
        MaterialView::Lambertian { albedo } => lemma_texture_doc_well_formed(albedo),
        MaterialView::Metal { .. } => {},
        MaterialView::Dielectric { .. } => {},
        MaterialView::DiffuseLight { emit } => lemma_texture_doc_well_formed(emit),
        MaterialView::Isotropic { albedo } => lemma_texture_doc_well_formed(albedo),
    }
}

/// A sphere's tagged record is a geometry encoding.
proof fn lemma_sphere_doc_well_formed(centre: Vector, radius: Real64, material: MaterialView)
    ensures
        is_geometry_encoding(
            spec_doc_tagged("Sphere"@, spec_doc_sphere_payload(centre, radius, material)),
        ),
{
    lemma_material_doc_well_formed(material);
}

/// A moving sphere's tagged record is a geometry encoding.
proof fn lemma_moving_sphere_doc_well_formed(
    centre_start: Vector,
    time_start: Real64,
    centre_end: Vector,
    time_end: Real64,
    radius: Real64,
    material: MaterialView,
)
    ensures
        is_geometry_encoding(
            spec_doc_tagged(
                "MovingSphere"@,
                spec_doc_moving_sphere_payload(
                    centre_start,
                    time_start,
                    centre_end,
                    time_end,
                    radius,
                    material,
                ),
            ),
        ),
{
    lemma_material_doc_well_formed(material);
}

/// A rectangle's tagged record is a geometry encoding, for each of the
/// three plane variants.
proof fn lemma_rect_doc_well_formed(
    a0: Real64,
    a1: Real64,
    b0: Real64,
    b1: Real64,
    k: Real64,
    material: MaterialView,
)
    ensures
        is_geometry_encoding(
            spec_doc_tagged(
                "XyRect"@,
                spec_doc_rect_payload("x0"@, a0, "x1"@, a1, "y0"@, b0, "y1"@, b1, k, material),
            ),
        ),
        is_geometry_encoding(
            spec_doc_tagged(
                "XzRect"@,
                spec_doc_rect_payload("x0"@, a0, "x1"@, a1, "z0"@, b0, "z1"@, b1, k, material),
            ),
        ),
        is_geometry_encoding(
            spec_doc_tagged(
                "YzRect"@,
                spec_doc_rect_payload("y0"@, a0, "y1"@, a1, "z0"@, b0, "z1"@, b1, k, material),
            ),
        ),
{
    lemma_material_doc_well_formed(material);
}

/// A cube's tagged record is a geometry encoding once its faces encode
/// well.
proof fn lemma_cube_doc_well_formed(rect_docs: Seq<DocView>, pmin: Vector, pmax: Vector)
    requires
        is_geometries_encoding(rect_docs),
    ensures
        is_geometry_encoding(
            spec_doc_tagged("Cube"@, spec_doc_cube_payload(rect_docs, pmin, pmax)),
        ),
{
}

/// A medium's tagged record is a geometry encoding once its boundary
/// encodes well.
proof fn lemma_medium_doc_well_formed(boundary_doc: DocView, density: Real64, material: MaterialView)
    requires
        is_geometry_encoding(boundary_doc),
    ensures
        is_geometry_encoding(
            spec_doc_tagged(
                "ConstantMedium"@,
                spec_doc_medium_payload(boundary_doc, density, material),
            ),
        ),
{
    lemma_material_doc_well_formed(material);
}

/// A wrapper's tagged record is a geometry encoding once the wrapped
/// geometry encodes well.
proof fn lemma_wrapper_doc_well_formed(geometry_doc: DocView, offset: Vector, angle: Real64)
    requires
        is_geometry_encoding(geometry_doc),
    ensures
        is_geometry_encoding(spec_doc_tagged("Flip"@, spec_doc_flip_payload(geometry_doc))),
        is_geometry_encoding(
            spec_doc_tagged("Translate"@, spec_doc_translate_payload(geometry_doc, offset)),
        ),
        is_geometry_encoding(
            spec_doc_tagged("RotateY"@, spec_doc_rotate_payload(geometry_doc, angle)),
        ),
{
}

/// A hierarchy node's tagged record is a geometry encoding once its
/// children encode well.
proof fn lemma_bvh_doc_well_formed(
    left_doc: DocView,
    right_doc: DocView,
    bounding_box: AxisAlignedBoundingBox,
)
    requires
        left_doc is Nothing || is_geometry_encoding(left_doc),
        right_doc is Nothing || is_geometry_encoding(right_doc),
    ensures
        is_geometry_encoding(
            spec_doc_tagged("Bvh"@, spec_doc_bvh_payload(left_doc, right_doc, bounding_box)),
        ),
{
    assert(is_opt_geometry_encoding(left_doc));
    assert(is_opt_geometry_encoding(right_doc));
    assert(is_bvh_payload_encoding(spec_doc_bvh_payload(left_doc, right_doc, bounding_box)));
}

/// What the geometry encoder writes is a geometry encoding.
pub proof fn lemma_geometry_doc_well_formed(g: GeometryView)
    ensures
        is_geometry_encoding(spec_doc_geometry(g)),
    decreases g, 1int,
{
    match g {
        GeometryView::Bvh { left, right, bounding_box } => {
            let left_doc = match left {
                Some(child) => spec_doc_geometry(*child),
                None => DocView::Nothing,
            };
            let right_doc = match right {
                Some(child) => spec_doc_geometry(*child),
                None => DocView::Nothing,
            };
            match left {
                Some(child) => lemma_geometry_doc_well_formed(*child),
                None => {},
            }
            match right {
                Some(child) => lemma_geometry_doc_well_formed(*child),
                None => {},
            }
            lemma_bvh_doc_well_formed(left_doc, right_doc, bounding_box);
        },
        GeometryView::Sphere { centre, radius, material } => {
            lemma_sphere_doc_well_formed(centre, radius, material);
        },
        GeometryView::MovingSphere {
            centre_start,
            time_start,
            centre_end,
            time_end,
            radius,
            material,
        } => {
            lemma_moving_sphere_doc_well_formed(
                centre_start,
                time_start,
                centre_end,
                time_end,
                radius,
                material,
            );
        },
        GeometryView::Cube { rectangles, pmin, pmax } => {
            lemma_geometries_doc_well_formed(rectangles);
            lemma_cube_doc_well_formed(spec_doc_geometries(rectangles), pmin, pmax);
        },
        GeometryView::ConstantMedium { boundary, density, material } => {
            lemma_geometry_doc_well_formed(*boundary);
            lemma_medium_doc_well_formed(spec_doc_geometry(*boundary), density, material);
        },
        GeometryView::XyRect { x0, x1, y0, y1, k, material } => {
            lemma_rect_doc_well_formed(x0, x1, y0, y1, k, material);
        },
        GeometryView::XzRect { x0, x1, z0, z1, k, material } => {
            lemma_rect_doc_well_formed(x0, x1, z0, z1, k, material);
        },
        GeometryView::YzRect { y0, y1, z0, z1, k, material } => {
            lemma_rect_doc_well_formed(y0, y1, z0, z1, k, material);
        },
        GeometryView::Flip { geometry } => {
            lemma_geometry_doc_well_formed(*geometry);
            lemma_wrapper_doc_well_formed(
                spec_doc_geometry(*geometry),
                Vector { x: Real64 { bits: 0 }, y: Real64 { bits: 0 }, z: Real64 { bits: 0 } },
                Real64 { bits: 0 },
            );
        },
        GeometryView::Translate { geometry, offset } => {
            lemma_geometry_doc_well_formed(*geometry);
            lemma_wrapper_doc_well_formed(spec_doc_geometry(*geometry), offset, Real64 { bits: 0 });
        },
        GeometryView::RotateY { geometry, angle } => {
            lemma_geometry_doc_well_formed(*geometry);
            lemma_wrapper_doc_well_formed(
                spec_doc_geometry(*geometry),
                Vector { x: Real64 { bits: 0 }, y: Real64 { bits: 0 }, z: Real64 { bits: 0 } },
                angle,
            );
        },
    }
}

/// What the geometry-list encoder writes is a geometry-list encoding.
pub proof fn lemma_geometries_doc_well_formed(s: Seq<GeometryView>)
    ensures
        is_geometries_encoding(spec_doc_geometries(s)),
    decreases s, 0int,
{
    lemma_spec_doc_geometries_len(s);
    assert forall|i: int|
        0 <= i < spec_doc_geometries(s).len() implies is_geometry_encoding(
        #[trigger] spec_doc_geometries(s)[i],
    ) by {
        lemma_geometry_doc_well_formed(s[i]);
    }
}

/// What the world encoder writes is a world encoding.
pub proof fn lemma_world_doc_well_formed(w: WorldSaveView)
    ensures
        is_world_encoding(spec_doc_world(w)),
{
    lemma_geometries_doc_well_formed(w.geometries);
}

/// What the configuration encoder writes is a configuration encoding.
pub proof fn lemma_config_doc_well_formed(c: ConfigSaveView)
    ensures
        is_config_encoding(spec_doc_config(c)),
{
    lemma_world_doc_well_formed(c.world);
}

} // verus!
