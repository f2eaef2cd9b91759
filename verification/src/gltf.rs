use vstd::prelude::*;

use crate::json::JsonValue;
use crate::json::duplicate;
use crate::json::get_field;
use crate::json::index_val;
use crate::json::json_eq;
use crate::json::lookup_spec;
use crate::json::num_val;
use crate::json::parse_index;
use crate::json::parse_nano;

verus! {

/// Why a scene-description document was rejected at load time.
#[derive(Debug, Clone, Copy, PartialEq, Eq, Structural)]
pub enum ParseError {
    /// The text is not a well-formed document.
    InvalidText,
    /// A value is not the object the schema expects.
    NotAnObject,
    /// A required field is absent.
    MissingField,
    /// A field holds a value of the wrong type or length.
    WrongType,
    /// A number is malformed or out of range.
    BadNumber,
    /// A name or code does not belong to its enumeration.
    BadEnum,
    /// An index reference points outside its target sequence.
    BadIndex,
}

/// An optional whole-number field: absent means the given default.
pub open spec fn opt_index_spec(
    fields: Seq<(String, JsonValue)>,
    key: Seq<char>,
    default: Option<usize>,
) -> Result<Option<usize>, ParseError> {
    match lookup_spec(fields, key) {
        None => Ok(default),
        Some(JsonValue::Num(t)) => match index_val(t@) {
            Some(v) => Ok(Some(v as usize)),
            None => Err(ParseError::BadNumber),
        },
        Some(_) => Err(ParseError::WrongType),
    }
}

pub fn opt_index(fields: &Vec<(String, JsonValue)>, key: &str, default: Option<usize>) -> (r:
    Result<Option<usize>, ParseError>)
    ensures
        r == opt_index_spec(fields@, key@, default),
{
    match get_field(fields, key) {
        None => Ok(default),
        Some(JsonValue::Num(t)) => match parse_index(t.as_str()) {
            Some(v) => Ok(Some(v)),
            None => Err(ParseError::BadNumber),
        },
        Some(_) => Err(ParseError::WrongType),
    }
}

/// A required whole-number field.
pub open spec fn req_index_spec(fields: Seq<(String, JsonValue)>, key: Seq<char>) -> Result<
    usize,
    ParseError,
> {
    match lookup_spec(fields, key) {
        None => Err(ParseError::MissingField),
        Some(JsonValue::Num(t)) => match index_val(t@) {
            Some(v) => Ok(v as usize),
            None => Err(ParseError::BadNumber),
        },
        Some(_) => Err(ParseError::WrongType),
    }
}

pub fn req_index(fields: &Vec<(String, JsonValue)>, key: &str) -> (r: Result<usize, ParseError>)
    ensures
        r == req_index_spec(fields@, key@),
{
    match get_field(fields, key) {
        None => Err(ParseError::MissingField),
        Some(JsonValue::Num(t)) => match parse_index(t.as_str()) {
            Some(v) => Ok(v),
            None => Err(ParseError::BadNumber),
        },
        Some(_) => Err(ParseError::WrongType),
    }
}

/// An optional fixed-point number field: absent means the given default.
pub open spec fn opt_nano_spec(
    fields: Seq<(String, JsonValue)>,
    key: Seq<char>,
    default: Option<i64>,
) -> Result<Option<i64>, ParseError> {
    match lookup_spec(fields, key) {
        None => Ok(default),
        Some(JsonValue::Num(t)) => match num_val(t@) {
            Some(v) => Ok(Some(v as i64)),
            None => Err(ParseError::BadNumber),
        },
        Some(_) => Err(ParseError::WrongType),
    }
}

pub fn opt_nano(fields: &Vec<(String, JsonValue)>, key: &str, default: Option<i64>) -> (r: Result<
    Option<i64>,
    ParseError,
>)
    ensures
        r == opt_nano_spec(fields@, key@, default),
{
    match get_field(fields, key) {
        None => Ok(default),
        Some(JsonValue::Num(t)) => match parse_nano(t.as_str()) {
            Some(v) => Ok(Some(v)),
            None => Err(ParseError::BadNumber),
        },
        Some(_) => Err(ParseError::WrongType),
    }
}

/// A required text field.
pub open spec fn req_string_spec(fields: Seq<(String, JsonValue)>, key: Seq<char>) -> Result<
    String,
    ParseError,
> {
    match lookup_spec(fields, key) {
        None => Err(ParseError::MissingField),
        Some(JsonValue::Str(t)) => Ok(t),
        Some(_) => Err(ParseError::WrongType),
    }
}

pub fn req_string(fields: &Vec<(String, JsonValue)>, key: &str) -> (r: Result<String, ParseError>)
    ensures
        r == req_string_spec(fields@, key@),
{
    match get_field(fields, key) {
        None => Err(ParseError::MissingField),
        Some(JsonValue::Str(t)) => Ok(t.clone()),
        Some(_) => Err(ParseError::WrongType),
    }
}

/// An optional text field.
pub open spec fn opt_string_spec(fields: Seq<(String, JsonValue)>, key: Seq<char>) -> Result<
    Option<String>,
    ParseError,
> {
    match lookup_spec(fields, key) {
        None => Ok(None),
        Some(JsonValue::Str(t)) => Ok(Some(t)),
        Some(_) => Err(ParseError::WrongType),
    }
}

pub fn opt_string(fields: &Vec<(String, JsonValue)>, key: &str) -> (r: Result<
    Option<String>,
    ParseError,
>)
    ensures
        r == opt_string_spec(fields@, key@),
{
    match get_field(fields, key) {
        None => Ok(None),
        Some(JsonValue::Str(t)) => Ok(Some(t.clone())),
        Some(_) => Err(ParseError::WrongType),
    }
}

/// An optional truth-value field: absent means the given default.
pub open spec fn opt_bool_spec(
    fields: Seq<(String, JsonValue)>,
    key: Seq<char>,
    default: Option<bool>,
) -> Result<Option<bool>, ParseError> {
    match lookup_spec(fields, key) {
        None => Ok(default),
        Some(JsonValue::Bool(b)) => Ok(Some(b)),
        Some(_) => Err(ParseError::WrongType),
    }
}

pub fn opt_bool(fields: &Vec<(String, JsonValue)>, key: &str, default: Option<bool>) -> (r: Result<
    Option<bool>,
    ParseError,
>)
    ensures
        r == opt_bool_spec(fields@, key@, default),
{
    match get_field(fields, key) {
        None => Ok(default),
        Some(JsonValue::Bool(b)) => Ok(Some(*b)),
        Some(_) => Err(ParseError::WrongType),
    }
}

/// The whole numbers a list of number values denotes.
pub open spec fn index_list_val(items: Seq<JsonValue>) -> Result<Seq<usize>, ParseError>
    decreases items.len(),
{
    if items.len() == 0 {
        Ok(Seq::empty())
    } else {
        match items[0] {
            JsonValue::Num(t) => match index_val(t@) {
                Some(v) => match index_list_val(items.drop_first()) {
                    Ok(rest) => Ok(seq![v as usize] + rest),
                    Err(e) => Err(e),
                },
                None => Err(ParseError::BadNumber),
            },
            _ => Err(ParseError::WrongType),
        }
    }
}

/// Parse a list of whole numbers.
pub fn parse_index_list(items: &Vec<JsonValue>) -> (r: Result<Vec<usize>, ParseError>)
    ensures
        match r {
            Ok(v) => index_list_val(items@) == Ok::<Seq<usize>, ParseError>(v@),
            Err(e) => index_list_val(items@) == Err::<Seq<usize>, ParseError>(e),
        },
{
    let mut out: Vec<usize> = Vec::new();
    let mut i: usize = 0;
    proof {
        lemma_index_list_prefix(items@, 0, Seq::empty());
    }
    while i < items.len()
        invariant
            i <= items@.len(),
            out@.len() == i as int,
            index_list_val(items@) == index_list_suffix_combine(items@, i as int, out@),
        decreases items@.len() - i,
    {
        match &items[i] {
            JsonValue::Num(t) => match parse_index(t.as_str()) {
                Some(v) => {
                    proof {
                        lemma_index_list_step(items@, i as int, out@, v);
                    }
                    out.push(v);
                },
                None => {
                    proof {
                        lemma_index_list_err(items@, i as int, out@);
                    }
                    return Err(ParseError::BadNumber);
                },
            },
            _ => {
                proof {
                    lemma_index_list_err(items@, i as int, out@);
                }
                return Err(ParseError::WrongType);
            },
        }
        i += 1;
    }
    proof {
        lemma_index_list_done(items@, out@);
    }
    Ok(out)
}

/// What the whole list denotes, given the prefix already read: the suffix
/// from `i` on, prepended by the prefix.
pub open spec fn index_list_suffix_combine(items: Seq<JsonValue>, i: int, prefix: Seq<usize>)
    -> Result<Seq<usize>, ParseError> {
    match index_list_val(items.subrange(i, items.len() as int)) {
        Ok(rest) => Ok(prefix + rest),
        Err(e) => Err(e),
    }
}

proof fn lemma_index_list_prefix(items: Seq<JsonValue>, i: int, prefix: Seq<usize>)
    requires
        i == 0,
        prefix.len() == 0,
    ensures
        index_list_val(items) == index_list_suffix_combine(items, 0, prefix),
{
    assert(items.subrange(0, items.len() as int) =~= items);
    match index_list_val(items) {
        Ok(rest) => {
            assert(prefix + rest =~= rest);
        },
        Err(_) => {},
    }
}

proof fn lemma_index_list_step(items: Seq<JsonValue>, i: int, prefix: Seq<usize>, v: usize)
    requires
        0 <= i < items.len(),
        items[i] matches JsonValue::Num(t) && index_val(t@) == Some(v as int),
        prefix.len() == i,
    ensures
        index_list_suffix_combine(items, i, prefix) == index_list_suffix_combine(
            items,
            i + 1,
            prefix.push(v),
        ),
{
    let suf = items.subrange(i, items.len() as int);
    assert(suf[0] == items[i]);
    assert(suf.drop_first() =~= items.subrange(i + 1, items.len() as int));
    match index_list_val(items.subrange(i + 1, items.len() as int)) {
        Ok(rest) => {
            assert(prefix + (seq![v] + rest) =~= prefix.push(v) + rest);
        },
        Err(_) => {},
    }
}

proof fn lemma_index_list_err(items: Seq<JsonValue>, i: int, prefix: Seq<usize>)
    requires
        0 <= i < items.len(),
        !(items[i] matches JsonValue::Num(t) && index_val(t@) is Some),
    ensures
        index_list_suffix_combine(items, i, prefix) == (match items[i] {
            JsonValue::Num(t) => Err::<Seq<usize>, ParseError>(ParseError::BadNumber),
            _ => Err::<Seq<usize>, ParseError>(ParseError::WrongType),
        }),
{
    let suf = items.subrange(i, items.len() as int);
    assert(suf[0] == items[i]);
}

proof fn lemma_index_list_done(items: Seq<JsonValue>, prefix: Seq<usize>)
    ensures
        index_list_suffix_combine(items, items.len() as int, prefix) == Ok::<
            Seq<usize>,
            ParseError,
        >(prefix),
{
    assert(items.subrange(items.len() as int, items.len() as int).len() == 0);
    match index_list_val(items.subrange(items.len() as int, items.len() as int)) {
        Ok(rest) => {
            assert(prefix + rest =~= prefix);
        },
        Err(_) => {},
    }
}


/// The datatype of an accessor's components, with its standard code.
#[derive(Debug, Clone, Copy, PartialEq, Eq, Structural)]
pub enum GltfAccessorComponentType {
    Byte,
    UnsignedByte,
    Short,
    UnsignedShort,
    UnsignedInt,
    Float,
}

/// The decoded byte size of one component.
pub open spec fn component_size(c: GltfAccessorComponentType) -> int {
    match c {
        GltfAccessorComponentType::Byte => 1,
        GltfAccessorComponentType::UnsignedByte => 1,
        GltfAccessorComponentType::Short => 2,
        GltfAccessorComponentType::UnsignedShort => 2,
        GltfAccessorComponentType::UnsignedInt => 4,
        GltfAccessorComponentType::Float => 4,
    }
}

/// The standard numeric code of a component type.
pub open spec fn component_code(c: GltfAccessorComponentType) -> int {
    match c {
        GltfAccessorComponentType::Byte => 5120,
        GltfAccessorComponentType::UnsignedByte => 5121,
        GltfAccessorComponentType::Short => 5122,
        GltfAccessorComponentType::UnsignedShort => 5123,
        GltfAccessorComponentType::UnsignedInt => 5125,
        GltfAccessorComponentType::Float => 5126,
    }
}

/// The component type a standard code names.
pub open spec fn component_from_code(n: int) -> Option<GltfAccessorComponentType> {
    if n == 5120 {
        Some(GltfAccessorComponentType::Byte)
    } else if n == 5121 {
        Some(GltfAccessorComponentType::UnsignedByte)
    } else if n == 5122 {
        Some(GltfAccessorComponentType::Short)
    } else if n == 5123 {
        Some(GltfAccessorComponentType::UnsignedShort)
    } else if n == 5125 {
        Some(GltfAccessorComponentType::UnsignedInt)
    } else if n == 5126 {
        Some(GltfAccessorComponentType::Float)
    } else {
        None
    }
}

impl GltfAccessorComponentType {
    /// The decoded byte size of one component.
    pub fn to_typesize(&self) -> (r: usize)
        ensures
            r as int == component_size(*self),
    {
        match *self {
            GltfAccessorComponentType::Byte => 1,
            GltfAccessorComponentType::UnsignedByte => 1,
            GltfAccessorComponentType::Short => 2,
            GltfAccessorComponentType::UnsignedShort => 2,
            GltfAccessorComponentType::UnsignedInt => 4,
            GltfAccessorComponentType::Float => 4,
        }
    }

    /// The standard numeric code of this component type.
    pub fn code(&self) -> (r: usize)
        ensures
            r as int == component_code(*self),
    {
        match *self {
            GltfAccessorComponentType::Byte => 5120,
            GltfAccessorComponentType::UnsignedByte => 5121,
            GltfAccessorComponentType::Short => 5122,
            GltfAccessorComponentType::UnsignedShort => 5123,
            GltfAccessorComponentType::UnsignedInt => 5125,
            GltfAccessorComponentType::Float => 5126,
        }
    }

    /// The component type a standard code names.
    pub fn from_code(n: usize) -> (r: Option<GltfAccessorComponentType>)
        ensures
            r == component_from_code(n as int),
    {
        if n == 5120 {
            Some(GltfAccessorComponentType::Byte)
        } else if n == 5121 {
            Some(GltfAccessorComponentType::UnsignedByte)
        } else if n == 5122 {
            Some(GltfAccessorComponentType::Short)
        } else if n == 5123 {
            Some(GltfAccessorComponentType::UnsignedShort)
        } else if n == 5125 {
            Some(GltfAccessorComponentType::UnsignedInt)
        } else if n == 5126 {
            Some(GltfAccessorComponentType::Float)
        } else {
            None
        }
    }
}

/// The shape of an accessor's elements, from scalars up to 4x4 matrices.
#[derive(Debug, Clone, Copy, PartialEq, Eq, Structural)]
pub enum GltfAccessorType {
    Scalar,
    Vec2,
    Vec3,
    Vec4,
    Mat2,
    Mat3,
    Mat4,
}

/// How many components one element of this shape holds.
pub open spec fn type_length(t: GltfAccessorType) -> int {
    match t {
        GltfAccessorType::Scalar => 1,
        GltfAccessorType::Vec2 => 2,
        GltfAccessorType::Vec3 => 3,
        GltfAccessorType::Vec4 => 4,
        GltfAccessorType::Mat2 => 4,
        GltfAccessorType::Mat3 => 9,
        GltfAccessorType::Mat4 => 16,
    }
}

/// The shape a standard name names.
pub open spec fn type_from_name(s: Seq<char>) -> Option<GltfAccessorType> {
    if s == "SCALAR"@ {
        Some(GltfAccessorType::Scalar)
    } else if s == "VEC2"@ {
        Some(GltfAccessorType::Vec2)
    } else if s == "VEC3"@ {
        Some(GltfAccessorType::Vec3)
    } else if s == "VEC4"@ {
        Some(GltfAccessorType::Vec4)
    } else if s == "MAT2"@ {
        Some(GltfAccessorType::Mat2)
    } else if s == "MAT3"@ {
        Some(GltfAccessorType::Mat3)
    } else if s == "MAT4"@ {
        Some(GltfAccessorType::Mat4)
    } else {
        None
    }
}

impl GltfAccessorType {
    /// How many components one element of this shape holds.
    pub fn to_length(&self) -> (r: usize)
        ensures
            r as int == type_length(*self),
    {
        match *self {
            GltfAccessorType::Scalar => 1,
            GltfAccessorType::Vec2 => 2,
            GltfAccessorType::Vec3 => 3,
            GltfAccessorType::Vec4 => 4,
            GltfAccessorType::Mat2 => 4,
            GltfAccessorType::Mat3 => 9,
            GltfAccessorType::Mat4 => 16,
        }
    }

    /// The shape a standard name names.
    pub fn from_name(s: &str) -> (r: Option<GltfAccessorType>)
        ensures
            r == type_from_name(s@),
    {
        let o = s.to_owned();
        if o == "SCALAR".to_owned() {
            Some(GltfAccessorType::Scalar)
        } else if o == "VEC2".to_owned() {
            Some(GltfAccessorType::Vec2)
        } else if o == "VEC3".to_owned() {
            Some(GltfAccessorType::Vec3)
        } else if o == "VEC4".to_owned() {
            Some(GltfAccessorType::Vec4)
        } else if o == "MAT2".to_owned() {
            Some(GltfAccessorType::Mat2)
        } else if o == "MAT3".to_owned() {
            Some(GltfAccessorType::Mat3)
        } else if o == "MAT4".to_owned() {
            Some(GltfAccessorType::Mat4)
        } else {
            None
        }
    }
}

/// The topology a primitive is rendered with, with its standard code.
#[derive(Debug, Clone, Copy, PartialEq, Eq, Structural)]
pub enum GltfMeshPrimitiveMode {
    Points,
    Lines,
    LineLoop,
    LineStrip,
    Triangles,
    TriangleStrip,
    TriangleFan,
}

impl Default for GltfMeshPrimitiveMode {
    /// Triangles, the standard default topology.
    fn default() -> (r: GltfMeshPrimitiveMode)
        ensures
            r == GltfMeshPrimitiveMode::Triangles,
    {
        GltfMeshPrimitiveMode::Triangles
    }
}

/// The topology a standard code names.
pub open spec fn mode_from_code(n: int) -> Option<GltfMeshPrimitiveMode> {
    if n == 0 {
        Some(GltfMeshPrimitiveMode::Points)
    } else if n == 1 {
        Some(GltfMeshPrimitiveMode::Lines)
    } else if n == 2 {
        Some(GltfMeshPrimitiveMode::LineLoop)
    } else if n == 3 {
        Some(GltfMeshPrimitiveMode::LineStrip)
    } else if n == 4 {
        Some(GltfMeshPrimitiveMode::Triangles)
    } else if n == 5 {
        Some(GltfMeshPrimitiveMode::TriangleStrip)
    } else if n == 6 {
        Some(GltfMeshPrimitiveMode::TriangleFan)
    } else {
        None
    }
}

impl GltfMeshPrimitiveMode {
    /// The topology a standard code names.
    pub fn from_code(n: usize) -> (r: Option<GltfMeshPrimitiveMode>)
        ensures
            r == mode_from_code(n as int),
    {
        if n == 0 {
            Some(GltfMeshPrimitiveMode::Points)
        } else if n == 1 {
            Some(GltfMeshPrimitiveMode::Lines)
        } else if n == 2 {
            Some(GltfMeshPrimitiveMode::LineLoop)
        } else if n == 3 {
            Some(GltfMeshPrimitiveMode::LineStrip)
        } else if n == 4 {
            Some(GltfMeshPrimitiveMode::Triangles)
        } else if n == 5 {
            Some(GltfMeshPrimitiveMode::TriangleStrip)
        } else if n == 6 {
            Some(GltfMeshPrimitiveMode::TriangleFan)
        } else {
            None
        }
    }
}

/// Which vertex attribute an accessor feeds.
#[derive(Debug, Clone, Copy, PartialEq, Eq, Structural)]
pub enum GltfMeshPrimitiveAttr {
    Position,
    Normal,
    Tangent,
    Weight,
    Color,
    MatrixPalette,
    Joint,
    TexCoord,
}

/// The attribute a standard semantic name names.
pub open spec fn attr_from_name(s: Seq<char>) -> Option<GltfMeshPrimitiveAttr> {
    if s == "POSITION"@ {
        Some(GltfMeshPrimitiveAttr::Position)
    } else if s == "NORMAL"@ {
        Some(GltfMeshPrimitiveAttr::Normal)
    } else if s == "TANGENT"@ {
        Some(GltfMeshPrimitiveAttr::Tangent)
    } else if s == "WEIGHT"@ {
        Some(GltfMeshPrimitiveAttr::Weight)
    } else if s == "COLOR_0"@ {
        Some(GltfMeshPrimitiveAttr::Color)
    } else if s == "MATRIX_PALETTE"@ {
        Some(GltfMeshPrimitiveAttr::MatrixPalette)
    } else if s == "JOINT"@ {
        Some(GltfMeshPrimitiveAttr::Joint)
    } else if s == "TEXCOORD_0"@ {
        Some(GltfMeshPrimitiveAttr::TexCoord)
    } else {
        None
    }
}

/// The attribute a standard semantic name names.
pub fn attr_of_name(s: &String) -> (r: Option<GltfMeshPrimitiveAttr>)
    ensures
        r == attr_from_name(s@),
{
    if *s == "POSITION".to_owned() {
        Some(GltfMeshPrimitiveAttr::Position)
    } else if *s == "NORMAL".to_owned() {
        Some(GltfMeshPrimitiveAttr::Normal)
    } else if *s == "TANGENT".to_owned() {
        Some(GltfMeshPrimitiveAttr::Tangent)
    } else if *s == "WEIGHT".to_owned() {
        Some(GltfMeshPrimitiveAttr::Weight)
    } else if *s == "COLOR_0".to_owned() {
        Some(GltfMeshPrimitiveAttr::Color)
    } else if *s == "MATRIX_PALETTE".to_owned() {
        Some(GltfMeshPrimitiveAttr::MatrixPalette)
    } else if *s == "JOINT".to_owned() {
        Some(GltfMeshPrimitiveAttr::Joint)
    } else if *s == "TEXCOORD_0".to_owned() {
        Some(GltfMeshPrimitiveAttr::TexCoord)
    } else {
        None
    }
}

/// The alpha rendering mode of a material.
#[derive(Debug, Clone, Copy, PartialEq, Eq, Structural)]
pub enum GltfMaterialAlphaMode {
    Opaque,
    Mask,
    Blend,
}

impl Default for GltfMaterialAlphaMode {
    /// Opaque, the standard default.
    fn default() -> (r: GltfMaterialAlphaMode)
        ensures
            r == GltfMaterialAlphaMode::Opaque,
    {
        GltfMaterialAlphaMode::Opaque
    }
}

/// The alpha mode a standard name names.
pub open spec fn alpha_from_name(s: Seq<char>) -> Option<GltfMaterialAlphaMode> {
    if s == "OPAQUE"@ {
        Some(GltfMaterialAlphaMode::Opaque)
    } else if s == "MASK"@ {
        Some(GltfMaterialAlphaMode::Mask)
    } else if s == "BLEND"@ {
        Some(GltfMaterialAlphaMode::Blend)
    } else {
        None
    }
}

pub fn alpha_of_name(s: &String) -> (r: Option<GltfMaterialAlphaMode>)
    ensures
        r == alpha_from_name(s@),
{
    if *s == "OPAQUE".to_owned() {
        Some(GltfMaterialAlphaMode::Opaque)
    } else if *s == "MASK".to_owned() {
        Some(GltfMaterialAlphaMode::Mask)
    } else if *s == "BLEND".to_owned() {
        Some(GltfMaterialAlphaMode::Blend)
    } else {
        None
    }
}

/// A texture coordinate wrapping mode, with its standard code.
#[derive(Debug, Clone, Copy, PartialEq, Eq, Structural)]
pub enum GltfSamplerWrap {
    ClampToEdge,
    MirroredRepeat,
    Repeat,
}

impl Default for GltfSamplerWrap {
    /// Repeat, the standard default.
    fn default() -> (r: GltfSamplerWrap)
        ensures
            r == GltfSamplerWrap::Repeat,
    {
        GltfSamplerWrap::Repeat
    }
}

/// The wrap mode a standard code names.
pub open spec fn wrap_from_code(n: int) -> Option<GltfSamplerWrap> {
    if n == 33071 {
        Some(GltfSamplerWrap::ClampToEdge)
    } else if n == 33648 {
        Some(GltfSamplerWrap::MirroredRepeat)
    } else if n == 10497 {
        Some(GltfSamplerWrap::Repeat)
    } else {
        None
    }
}

impl GltfSamplerWrap {
    /// The wrap mode a standard code names.
    pub fn from_code(n: usize) -> (r: Option<GltfSamplerWrap>)
        ensures
            r == wrap_from_code(n as int),
    {
        if n == 33071 {
            Some(GltfSamplerWrap::ClampToEdge)
        } else if n == 33648 {
            Some(GltfSamplerWrap::MirroredRepeat)
        } else if n == 10497 {
            Some(GltfSamplerWrap::Repeat)
        } else {
            None
        }
    }
}

/// The fixed-point values a list of number values denotes.
pub open spec fn nano_list_val(items: Seq<JsonValue>) -> Result<Seq<i64>, ParseError>
    decreases items.len(),
{
    if items.len() == 0 {
        Ok(Seq::empty())
    } else {
        match items[0] {
            JsonValue::Num(t) => match num_val(t@) {
                Some(v) => match nano_list_val(items.drop_first()) {
                    Ok(rest) => Ok(seq![v as i64] + rest),
                    Err(e) => Err(e),
                },
                None => Err(ParseError::BadNumber),
            },
            _ => Err(ParseError::WrongType),
        }
    }
}

/// What the whole list denotes, given the prefix already read.
pub open spec fn nano_list_suffix_combine(items: Seq<JsonValue>, i: int, prefix: Seq<i64>)
    -> Result<Seq<i64>, ParseError> {
    match nano_list_val(items.subrange(i, items.len() as int)) {
        Ok(rest) => Ok(prefix + rest),
        Err(e) => Err(e),
    }
}

/// Parse a list of fixed-point numbers.
pub fn parse_nano_list(items: &Vec<JsonValue>) -> (r: Result<Vec<i64>, ParseError>)
    ensures
        match r {
            Ok(v) => nano_list_val(items@) == Ok::<Seq<i64>, ParseError>(v@),
            Err(e) => nano_list_val(items@) == Err::<Seq<i64>, ParseError>(e),
        },
{
    let mut out: Vec<i64> = Vec::new();
    let mut i: usize = 0;
    proof {
        assert(items@.subrange(0, items@.len() as int) =~= items@);
        match nano_list_val(items@) {
            Ok(rest) => {
                assert(Seq::<i64>::empty() + rest =~= rest);
            },
            Err(_) => {},
        }
    }
    while i < items.len()
        invariant
            i <= items@.len(),
            out@.len() == i as int,
            nano_list_val(items@) == nano_list_suffix_combine(items@, i as int, out@),
        decreases items@.len() - i,
    {
        proof {
            let suf = items@.subrange(i as int, items@.len() as int);
            assert(suf[0] == items@[i as int]);
            assert(suf.drop_first() =~= items@.subrange(i as int + 1, items@.len() as int));
        }
        match &items[i] {
            JsonValue::Num(t) => match parse_nano(t.as_str()) {
                Some(v) => {
                    proof {
                        match nano_list_val(
                            items@.subrange(i as int + 1, items@.len() as int),
                        ) {
                            Ok(rest) => {
                                assert(out@ + (seq![v] + rest) =~= out@.push(v) + rest);
                            },
                            Err(_) => {},
                        }
                    }
                    out.push(v);
                },
                None => {
                    return Err(ParseError::BadNumber);
                },
            },
            _ => {
                return Err(ParseError::WrongType);
            },
        }
        i += 1;
    }
    proof {
        assert(items@.subrange(items@.len() as int, items@.len() as int).len() == 0);
        match nano_list_val(items@.subrange(items@.len() as int, items@.len() as int)) {
            Ok(rest) => {
                assert(out@ + rest =~= out@);
            },
            Err(_) => {},
        }
    }
    Ok(out)
}

/// Application-specific data carried beside any schema object.
#[derive(Debug)]
pub struct GltfExtras {
    pub extensions: Option<JsonValue>,
    pub extras: Option<JsonValue>,
}

/// Whether an extras pair was read off the given object fields.
pub open spec fn extras_of(x: GltfExtras, f: Seq<(String, JsonValue)>) -> bool {
    &&& match lookup_spec(f, "extensions"@) {
        None => x.extensions is None,
        Some(orig) => x.extensions matches Some(c) && json_eq(orig, c),
    }
    &&& match lookup_spec(f, "extras"@) {
        None => x.extras is None,
        Some(orig) => x.extras matches Some(c) && json_eq(orig, c),
    }
}

/// Read the application-specific data off an object's fields; it is always
/// accepted, whatever its shape.
pub fn parse_extras(fields: &Vec<(String, JsonValue)>) -> (r: GltfExtras)
    ensures
        extras_of(r, fields@),
{
    let extensions = match get_field(fields, "extensions") {
        None => None,
        Some(orig) => Some(duplicate(orig)),
    };
    let extras = match get_field(fields, "extras") {
        None => None,
        Some(orig) => Some(duplicate(orig)),
    };
    GltfExtras { extensions, extras }
}

/// Metadata about the scene-description asset.
#[derive(Debug)]
pub struct GltfAsset {
    pub copyright: Option<String>,
    pub generator: Option<String>,
    pub version: String,
    pub min_version: Option<String>,
    pub extras: GltfExtras,
}

/// The object parses as a `GltfAsset`.
pub open spec fn asset_valid(v: JsonValue) -> bool {
    match v {
        JsonValue::Obj(f) => {
            &&& (opt_string_spec(f@, "copyright"@) is Ok)
            &&& (opt_string_spec(f@, "generator"@) is Ok)
            &&& (req_string_spec(f@, "version"@) is Ok)
            &&& (opt_string_spec(f@, "minVersion"@) is Ok)
        },
        _ => false,
    }
}

/// How a parsed `GltfAsset` relates to the object it was read from.
pub open spec fn asset_of(x: GltfAsset, v: JsonValue) -> bool {
    match v {
        JsonValue::Obj(f) => {
            &&& (opt_string_spec(f@, "copyright"@) == Ok::<Option<String>, ParseError>(x.copyright))
            &&& (opt_string_spec(f@, "generator"@) == Ok::<Option<String>, ParseError>(x.generator))
            &&& (req_string_spec(f@, "version"@) == Ok::<String, ParseError>(x.version))
            &&& (opt_string_spec(f@, "minVersion"@) == Ok::<Option<String>, ParseError>(x.min_version))
            &&& (extras_of(x.extras, f@))
        },
        _ => false,
    }
}

/// Parse a `GltfAsset` from a value.
pub fn parse_asset(v: &JsonValue) -> (r: Result<GltfAsset, ParseError>)
    ensures
        r is Ok <==> asset_valid(*v),
        r matches Ok(x) ==> asset_of(x, *v),
{
    let fields = match v {
        JsonValue::Obj(f) => f,
        _ => { return Err(ParseError::NotAnObject); },
    };
    let copyright = match opt_string(fields, "copyright") { Ok(x) => x, Err(e) => return Err(e) };
    let generator = match opt_string(fields, "generator") { Ok(x) => x, Err(e) => return Err(e) };
    let version = match req_string(fields, "version") { Ok(x) => x, Err(e) => return Err(e) };
    let min_version = match opt_string(fields, "minVersion") { Ok(x) => x, Err(e) => return Err(e) };
    let extras = parse_extras(fields);
    Ok(GltfAsset { copyright, generator, version, min_version, extras })
}

/// The root nodes of a scene.
#[derive(Debug)]
pub struct GltfSceneElement {
    pub nodes: Vec<usize>,
    pub name: Option<String>,
    pub extras: GltfExtras,
}

/// The object parses as a `GltfSceneElement`.
pub open spec fn scene_element_valid(v: JsonValue) -> bool {
    match v {
        JsonValue::Obj(f) => {
            &&& (match lookup_spec(f@, "nodes"@) {
            None => true,
            Some(JsonValue::Arr(items)) => index_list_val(items@) is Ok,
            Some(_) => false,
        })
            &&& (opt_string_spec(f@, "name"@) is Ok)
        },
        _ => false,
    }
}

/// How a parsed `GltfSceneElement` relates to the object it was read from.
pub open spec fn scene_element_of(x: GltfSceneElement, v: JsonValue) -> bool {
    match v {
        JsonValue::Obj(f) => {
            &&& (match lookup_spec(f@, "nodes"@) {
            None => x.nodes@.len() == 0,
            Some(JsonValue::Arr(items)) => index_list_val(items@) == Ok::<Seq<usize>, ParseError>(x.nodes@),
            Some(_) => false,
        })
            &&& (opt_string_spec(f@, "name"@) == Ok::<Option<String>, ParseError>(x.name))
            &&& (extras_of(x.extras, f@))
        },
        _ => false,
    }
}

/// Parse a `GltfSceneElement` from a value.
pub fn parse_scene_element(v: &JsonValue) -> (r: Result<GltfSceneElement, ParseError>)
    ensures
        r is Ok <==> scene_element_valid(*v),
        r matches Ok(x) ==> scene_element_of(x, *v),
{
    let fields = match v {
        JsonValue::Obj(f) => f,
        _ => { return Err(ParseError::NotAnObject); },
    };
    let nodes = match get_field(fields, "nodes") {
        None => Vec::new(),
        Some(JsonValue::Arr(items)) => match parse_index_list(items) {
            Ok(x) => x,
            Err(e) => return Err(e),
        },
        Some(_) => return Err(ParseError::WrongType),
    };
    let name = match opt_string(fields, "name") { Ok(x) => x, Err(e) => return Err(e) };
    let extras = parse_extras(fields);
    Ok(GltfSceneElement { nodes, name, extras })
}

/// Parse a list of `GltfSceneElement` values.
pub fn parse_scene_element_list(items: &Vec<JsonValue>) -> (r: Result<Vec<GltfSceneElement>, ParseError>)
    ensures
        r is Ok <==> (forall|i: int| 0 <= i < items@.len() ==> scene_element_valid(#[trigger] items@[i])),
        r matches Ok(out) ==> out@.len() == items@.len() && (forall|i: int|
            0 <= i < items@.len() ==> scene_element_of(#[trigger] out@[i], items@[i])),
{
    let mut out: Vec<GltfSceneElement> = Vec::new();
    let mut i: usize = 0;
    while i < items.len()
        invariant
            i <= items@.len(),
            out@.len() == i as int,
            forall|k: int| 0 <= k < i ==> scene_element_valid(#[trigger] items@[k]),
            forall|k: int| 0 <= k < i ==> scene_element_of(#[trigger] out@[k], items@[k]),
        decreases items@.len() - i,
    {
        match parse_scene_element(&items[i]) {
            Ok(x) => out.push(x),
            Err(e) => { return Err(e); },
        }
        i += 1;
    }
    Ok(out)
}

/// A node in the scene hierarchy: children, an optional mesh, and an optional local transform.
#[derive(Debug)]
pub struct GltfNode {
    pub camera: Option<usize>,
    pub children: Vec<usize>,
    pub skin: Option<usize>,
    pub matrix: Option<Vec<i64>>,
    pub mesh: Option<usize>,
    pub rotation: Option<Vec<i64>>,
    pub scale: Option<Vec<i64>>,
    pub translation: Option<Vec<i64>>,
    pub weights: Option<Vec<i64>>,
    pub name: Option<String>,
    pub extras: GltfExtras,
}

/// The object parses as a `GltfNode`.
pub open spec fn node_valid(v: JsonValue) -> bool {
    match v {
        JsonValue::Obj(f) => {
            &&& (opt_index_spec(f@, "camera"@, None) is Ok)
            &&& (match lookup_spec(f@, "children"@) {
            None => true,
            Some(JsonValue::Arr(items)) => index_list_val(items@) is Ok,
            Some(_) => false,
        })
            &&& (opt_index_spec(f@, "skin"@, None) is Ok)
            &&& (match lookup_spec(f@, "matrix"@) {
            None => true,
            Some(JsonValue::Arr(items)) => nano_list_val(items@) is Ok && (match nano_list_val(items@) { Ok(l) => l.len() == 16, Err(_) => false }),
            Some(_) => false,
        })
            &&& (opt_index_spec(f@, "mesh"@, None) is Ok)
            &&& (match lookup_spec(f@, "rotation"@) {
            None => true,
            Some(JsonValue::Arr(items)) => nano_list_val(items@) is Ok && (match nano_list_val(items@) { Ok(l) => l.len() == 4, Err(_) => false }),
            Some(_) => false,
        })
            &&& (match lookup_spec(f@, "scale"@) {
            None => true,
            Some(JsonValue::Arr(items)) => nano_list_val(items@) is Ok && (match nano_list_val(items@) { Ok(l) => l.len() == 3, Err(_) => false }),
            Some(_) => false,
        })
            &&& (match lookup_spec(f@, "translation"@) {
            None => true,
            Some(JsonValue::Arr(items)) => nano_list_val(items@) is Ok && (match nano_list_val(items@) { Ok(l) => l.len() == 3, Err(_) => false }),
            Some(_) => false,
        })
            &&& (match lookup_spec(f@, "weights"@) {
            None => true,
            Some(JsonValue::Arr(items)) => nano_list_val(items@) is Ok,
            Some(_) => false,
        })
            &&& (opt_string_spec(f@, "name"@) is Ok)
        },
        _ => false,
    }
}

/// How a parsed `GltfNode` relates to the object it was read from.
pub open spec fn node_of(x: GltfNode, v: JsonValue) -> bool {
    match v {
        JsonValue::Obj(f) => {
            &&& (opt_index_spec(f@, "camera"@, None) == Ok::<Option<usize>, ParseError>(x.camera))
            &&& (match lookup_spec(f@, "children"@) {
            None => x.children@.len() == 0,
            Some(JsonValue::Arr(items)) => index_list_val(items@) == Ok::<Seq<usize>, ParseError>(x.children@),
            Some(_) => false,
        })
            &&& (opt_index_spec(f@, "skin"@, None) == Ok::<Option<usize>, ParseError>(x.skin))
            &&& (match lookup_spec(f@, "matrix"@) {
            None => x.matrix matches Some(l) && l@ == identity16_nano(),
            Some(JsonValue::Arr(items)) => x.matrix matches Some(l) && nano_list_val(items@) == Ok::<Seq<i64>, ParseError>(l@),
            Some(_) => false,
        })
            &&& (opt_index_spec(f@, "mesh"@, None) == Ok::<Option<usize>, ParseError>(x.mesh))
            &&& (match lookup_spec(f@, "rotation"@) {
            None => x.rotation matches Some(l) && l@ == quat_identity_nano(),
            Some(JsonValue::Arr(items)) => x.rotation matches Some(l) && nano_list_val(items@) == Ok::<Seq<i64>, ParseError>(l@),
            Some(_) => false,
        })
            &&& (match lookup_spec(f@, "scale"@) {
            None => x.scale matches Some(l) && l@ == ones3_nano(),
            Some(JsonValue::Arr(items)) => x.scale matches Some(l) && nano_list_val(items@) == Ok::<Seq<i64>, ParseError>(l@),
            Some(_) => false,
        })
            &&& (match lookup_spec(f@, "translation"@) {
            None => x.translation matches Some(l) && l@ == zeros3_nano(),
            Some(JsonValue::Arr(items)) => x.translation matches Some(l) && nano_list_val(items@) == Ok::<Seq<i64>, ParseError>(l@),
            Some(_) => false,
        })
            &&& (match lookup_spec(f@, "weights"@) {
            None => x.weights is None,
            Some(JsonValue::Arr(items)) => x.weights matches Some(l) && nano_list_val(items@) == Ok::<Seq<i64>, ParseError>(l@),
            Some(_) => false,
        })
            &&& (opt_string_spec(f@, "name"@) == Ok::<Option<String>, ParseError>(x.name))
            &&& (extras_of(x.extras, f@))
        },
        _ => false,
    }
}

/// Parse a `GltfNode` from a value.
pub fn parse_node(v: &JsonValue) -> (r: Result<GltfNode, ParseError>)
    ensures
        r is Ok <==> node_valid(*v),
        r matches Ok(x) ==> node_of(x, *v),
{
    let fields = match v {
        JsonValue::Obj(f) => f,
        _ => { return Err(ParseError::NotAnObject); },
    };
    let camera = match opt_index(fields, "camera", None) { Ok(x) => x, Err(e) => return Err(e) };
    let children = match get_field(fields, "children") {
        None => Vec::new(),
        Some(JsonValue::Arr(items)) => match parse_index_list(items) {
            Ok(x) => x,
            Err(e) => return Err(e),
        },
        Some(_) => return Err(ParseError::WrongType),
    };
    let skin = match opt_index(fields, "skin", None) { Ok(x) => x, Err(e) => return Err(e) };
    let matrix = match get_field(fields, "matrix") {
        None => Some(identity16_nano_exec()),
        Some(JsonValue::Arr(items)) => match parse_nano_list(items) {
            Ok(x) => {
            if x.len() != 16 {
                return Err(ParseError::WrongType);
            }
                Some(x)
            },
            Err(e) => return Err(e),
        },
        Some(_) => return Err(ParseError::WrongType),
    };
    let mesh = match opt_index(fields, "mesh", None) { Ok(x) => x, Err(e) => return Err(e) };
    let rotation = match get_field(fields, "rotation") {
        None => Some(quat_identity_nano_exec()),
        Some(JsonValue::Arr(items)) => match parse_nano_list(items) {
            Ok(x) => {
            if x.len() != 4 {
                return Err(ParseError::WrongType);
            }
                Some(x)
            },
            Err(e) => return Err(e),
        },
        Some(_) => return Err(ParseError::WrongType),
    };
    let scale = match get_field(fields, "scale") {
        None => Some(ones3_nano_exec()),
        Some(JsonValue::Arr(items)) => match parse_nano_list(items) {
            Ok(x) => {
            if x.len() != 3 {
                return Err(ParseError::WrongType);
            }
                Some(x)
            },
            Err(e) => return Err(e),
        },
        Some(_) => return Err(ParseError::WrongType),
    };
    let translation = match get_field(fields, "translation") {
        None => Some(zeros3_nano_exec()),
        Some(JsonValue::Arr(items)) => match parse_nano_list(items) {
            Ok(x) => {
            if x.len() != 3 {
                return Err(ParseError::WrongType);
            }
                Some(x)
            },
            Err(e) => return Err(e),
        },
        Some(_) => return Err(ParseError::WrongType),
    };
    let weights = match get_field(fields, "weights") {
        None => None,
        Some(JsonValue::Arr(items)) => match parse_nano_list(items) {
            Ok(x) => {
                Some(x)
            },
            Err(e) => return Err(e),
        },
        Some(_) => return Err(ParseError::WrongType),
    };
    let name = match opt_string(fields, "name") { Ok(x) => x, Err(e) => return Err(e) };
    let extras = parse_extras(fields);
    Ok(GltfNode { camera, children, skin, matrix, mesh, rotation, scale, translation, weights, name, extras })
}

/// Parse a list of `GltfNode` values.
pub fn parse_node_list(items: &Vec<JsonValue>) -> (r: Result<Vec<GltfNode>, ParseError>)
    ensures
        r is Ok <==> (forall|i: int| 0 <= i < items@.len() ==> node_valid(#[trigger] items@[i])),
        r matches Ok(out) ==> out@.len() == items@.len() && (forall|i: int|
            0 <= i < items@.len() ==> node_of(#[trigger] out@[i], items@[i])),
{
    let mut out: Vec<GltfNode> = Vec::new();
    let mut i: usize = 0;
    while i < items.len()
        invariant
            i <= items@.len(),
            out@.len() == i as int,
            forall|k: int| 0 <= k < i ==> node_valid(#[trigger] items@[k]),
            forall|k: int| 0 <= k < i ==> node_of(#[trigger] out@[k], items@[k]),
        decreases items@.len() - i,
    {
        match parse_node(&items[i]) {
            Ok(x) => out.push(x),
            Err(e) => { return Err(e); },
        }
        i += 1;
    }
    Ok(out)
}

/// Reference to a texture.
#[derive(Debug)]
pub struct GltfTextureInfo {
    pub index: usize,
    pub tex_coord: Option<usize>,
    pub extras: GltfExtras,
}

/// The object parses as a `GltfTextureInfo`.
pub open spec fn texture_info_valid(v: JsonValue) -> bool {
    match v {
        JsonValue::Obj(f) => {
            &&& (req_index_spec(f@, "index"@) is Ok)
            &&& (opt_index_spec(f@, "texCoord"@, Some(0)) is Ok)
        },
        _ => false,
    }
}

/// How a parsed `GltfTextureInfo` relates to the object it was read from.
pub open spec fn texture_info_of(x: GltfTextureInfo, v: JsonValue) -> bool {
    match v {
        JsonValue::Obj(f) => {
            &&& (req_index_spec(f@, "index"@) == Ok::<usize, ParseError>(x.index))
            &&& (opt_index_spec(f@, "texCoord"@, Some(0)) == Ok::<Option<usize>, ParseError>(x.tex_coord))
            &&& (extras_of(x.extras, f@))
        },
        _ => false,
    }
}

/// Parse a `GltfTextureInfo` from a value.
pub fn parse_texture_info(v: &JsonValue) -> (r: Result<GltfTextureInfo, ParseError>)
    ensures
        r is Ok <==> texture_info_valid(*v),
        r matches Ok(x) ==> texture_info_of(x, *v),
{
    let fields = match v {
        JsonValue::Obj(f) => f,
        _ => { return Err(ParseError::NotAnObject); },
    };
    let index = match req_index(fields, "index") { Ok(x) => x, Err(e) => return Err(e) };
    let tex_coord = match opt_index(fields, "texCoord", Some(0)) { Ok(x) => x, Err(e) => return Err(e) };
    let extras = parse_extras(fields);
    Ok(GltfTextureInfo { index, tex_coord, extras })
}

/// Reference to a tangent-space normal texture.
#[derive(Debug)]
pub struct GltfNormalTextureInfo {
    pub index: usize,
    pub tex_coord: Option<usize>,
    pub scale: Option<i64>,
    pub extras: GltfExtras,
}

/// The object parses as a `GltfNormalTextureInfo`.
pub open spec fn normal_texture_info_valid(v: JsonValue) -> bool {
    match v {
        JsonValue::Obj(f) => {
            &&& (req_index_spec(f@, "index"@) is Ok)
            &&& (opt_index_spec(f@, "texCoord"@, Some(0)) is Ok)
            &&& (opt_nano_spec(f@, "scale"@, Some(crate::math::fixed::SCALE)) is Ok)
        },
        _ => false,
    }
}

/// How a parsed `GltfNormalTextureInfo` relates to the object it was read from.
pub open spec fn normal_texture_info_of(x: GltfNormalTextureInfo, v: JsonValue) -> bool {
    match v {
        JsonValue::Obj(f) => {
            &&& (req_index_spec(f@, "index"@) == Ok::<usize, ParseError>(x.index))
            &&& (opt_index_spec(f@, "texCoord"@, Some(0)) == Ok::<Option<usize>, ParseError>(x.tex_coord))
            &&& (opt_nano_spec(f@, "scale"@, Some(crate::math::fixed::SCALE)) == Ok::<Option<i64>, ParseError>(x.scale))
            &&& (extras_of(x.extras, f@))
        },
        _ => false,
    }
}

/// Parse a `GltfNormalTextureInfo` from a value.
pub fn parse_normal_texture_info(v: &JsonValue) -> (r: Result<GltfNormalTextureInfo, ParseError>)
    ensures
        r is Ok <==> normal_texture_info_valid(*v),
        r matches Ok(x) ==> normal_texture_info_of(x, *v),
{
    let fields = match v {
        JsonValue::Obj(f) => f,
        _ => { return Err(ParseError::NotAnObject); },
    };
    let index = match req_index(fields, "index") { Ok(x) => x, Err(e) => return Err(e) };
    let tex_coord = match opt_index(fields, "texCoord", Some(0)) { Ok(x) => x, Err(e) => return Err(e) };
    let scale = match opt_nano(fields, "scale", Some(crate::math::fixed::SCALE)) { Ok(x) => x, Err(e) => return Err(e) };
    let extras = parse_extras(fields);
    Ok(GltfNormalTextureInfo { index, tex_coord, scale, extras })
}

/// Reference to an occlusion texture.
#[derive(Debug)]
pub struct GltfOcclusionTextureInfo {
    pub index: usize,
    pub tex_coord: Option<usize>,
    pub strength: Option<i64>,
    pub extras: GltfExtras,
}

/// The object parses as a `GltfOcclusionTextureInfo`.
pub open spec fn occlusion_texture_info_valid(v: JsonValue) -> bool {
    match v {
        JsonValue::Obj(f) => {
            &&& (req_index_spec(f@, "index"@) is Ok)
            &&& (opt_index_spec(f@, "texCoord"@, Some(0)) is Ok)
            &&& (opt_nano_spec(f@, "strength"@, Some(crate::math::fixed::SCALE)) is Ok)
        },
        _ => false,
    }
}

/// How a parsed `GltfOcclusionTextureInfo` relates to the object it was read from.
pub open spec fn occlusion_texture_info_of(x: GltfOcclusionTextureInfo, v: JsonValue) -> bool {
    match v {
        JsonValue::Obj(f) => {
            &&& (req_index_spec(f@, "index"@) == Ok::<usize, ParseError>(x.index))
            &&& (opt_index_spec(f@, "texCoord"@, Some(0)) == Ok::<Option<usize>, ParseError>(x.tex_coord))
            &&& (opt_nano_spec(f@, "strength"@, Some(crate::math::fixed::SCALE)) == Ok::<Option<i64>, ParseError>(x.strength))
            &&& (extras_of(x.extras, f@))
        },
        _ => false,
    }
}

/// Parse a `GltfOcclusionTextureInfo` from a value.
pub fn parse_occlusion_texture_info(v: &JsonValue) -> (r: Result<GltfOcclusionTextureInfo, ParseError>)
    ensures
        r is Ok <==> occlusion_texture_info_valid(*v),
        r matches Ok(x) ==> occlusion_texture_info_of(x, *v),
{
    let fields = match v {
        JsonValue::Obj(f) => f,
        _ => { return Err(ParseError::NotAnObject); },
    };
    let index = match req_index(fields, "index") { Ok(x) => x, Err(e) => return Err(e) };
    let tex_coord = match opt_index(fields, "texCoord", Some(0)) { Ok(x) => x, Err(e) => return Err(e) };
    let strength = match opt_nano(fields, "strength", Some(crate::math::fixed::SCALE)) { Ok(x) => x, Err(e) => return Err(e) };
    let extras = parse_extras(fields);
    Ok(GltfOcclusionTextureInfo { index, tex_coord, strength, extras })
}

/// The metallic-roughness material model parameters.
#[derive(Debug)]
pub struct GltfPbrMetallicRoughness {
    pub base_color_factor: Option<Vec<i64>>,
    pub base_color_texture: Option<GltfTextureInfo>,
    pub metallic_factor: Option<i64>,
    pub roughness_factor: Option<i64>,
    pub metallic_roughness_texture: Option<GltfTextureInfo>,
    pub extras: GltfExtras,
}

/// The object parses as a `GltfPbrMetallicRoughness`.
pub open spec fn pbr_valid(v: JsonValue) -> bool {
    match v {
        JsonValue::Obj(f) => {
            &&& (match lookup_spec(f@, "baseColorFactor"@) {
            None => true,
            Some(JsonValue::Arr(items)) => nano_list_val(items@) is Ok && (match nano_list_val(items@) { Ok(l) => l.len() == 4, Err(_) => false }),
            Some(_) => false,
        })
            &&& (match lookup_spec(f@, "baseColorTexture"@) {
            None => true,
            Some(o) => texture_info_valid(o),
        })
            &&& (opt_nano_spec(f@, "metallicFactor"@, Some(crate::math::fixed::SCALE)) is Ok)
            &&& (opt_nano_spec(f@, "roughnessFactor"@, Some(crate::math::fixed::SCALE)) is Ok)
            &&& (match lookup_spec(f@, "metallicRoughnessTexture"@) {
            None => true,
            Some(o) => texture_info_valid(o),
        })
        },
        _ => false,
    }
}

/// How a parsed `GltfPbrMetallicRoughness` relates to the object it was read from.
pub open spec fn pbr_of(x: GltfPbrMetallicRoughness, v: JsonValue) -> bool {
    match v {
        JsonValue::Obj(f) => {
            &&& (match lookup_spec(f@, "baseColorFactor"@) {
            None => x.base_color_factor matches Some(l) && l@ == ones4_nano(),
            Some(JsonValue::Arr(items)) => x.base_color_factor matches Some(l) && nano_list_val(items@) == Ok::<Seq<i64>, ParseError>(l@),
            Some(_) => false,
        })
            &&& (match lookup_spec(f@, "baseColorTexture"@) {
            None => x.base_color_texture is None,
            Some(o) => x.base_color_texture matches Some(s) && texture_info_of(s, o),
        })
            &&& (opt_nano_spec(f@, "metallicFactor"@, Some(crate::math::fixed::SCALE)) == Ok::<Option<i64>, ParseError>(x.metallic_factor))
            &&& (opt_nano_spec(f@, "roughnessFactor"@, Some(crate::math::fixed::SCALE)) == Ok::<Option<i64>, ParseError>(x.roughness_factor))
            &&& (match lookup_spec(f@, "metallicRoughnessTexture"@) {
            None => x.metallic_roughness_texture is None,
            Some(o) => x.metallic_roughness_texture matches Some(s) && texture_info_of(s, o),
        })
            &&& (extras_of(x.extras, f@))
        },
        _ => false,
    }
}

/// Parse a `GltfPbrMetallicRoughness` from a value.
pub fn parse_pbr(v: &JsonValue) -> (r: Result<GltfPbrMetallicRoughness, ParseError>)
    ensures
        r is Ok <==> pbr_valid(*v),
        r matches Ok(x) ==> pbr_of(x, *v),
{
    let fields = match v {
        JsonValue::Obj(f) => f,
        _ => { return Err(ParseError::NotAnObject); },
    };
    let base_color_factor = match get_field(fields, "baseColorFactor") {
        None => Some(ones4_nano_exec()),
        Some(JsonValue::Arr(items)) => match parse_nano_list(items) {
            Ok(x) => {
            if x.len() != 4 {
                return Err(ParseError::WrongType);
            }
                Some(x)
            },
            Err(e) => return Err(e),
        },
        Some(_) => return Err(ParseError::WrongType),
    };
    let base_color_texture = match get_field(fields, "baseColorTexture") {
        None => None,
        Some(o) => match parse_texture_info(o) {
            Ok(x) => Some(x),
            Err(e) => return Err(e),
        },
    };
    let metallic_factor = match opt_nano(fields, "metallicFactor", Some(crate::math::fixed::SCALE)) { Ok(x) => x, Err(e) => return Err(e) };
    let roughness_factor = match opt_nano(fields, "roughnessFactor", Some(crate::math::fixed::SCALE)) { Ok(x) => x, Err(e) => return Err(e) };
    let metallic_roughness_texture = match get_field(fields, "metallicRoughnessTexture") {
        None => None,
        Some(o) => match parse_texture_info(o) {
            Ok(x) => Some(x),
            Err(e) => return Err(e),
        },
    };
    let extras = parse_extras(fields);
    Ok(GltfPbrMetallicRoughness { base_color_factor, base_color_texture, metallic_factor, roughness_factor, metallic_roughness_texture, extras })
}

/// The material appearance of a primitive.
#[derive(Debug)]
pub struct GltfMaterial {
    pub name: Option<String>,
    pub extras: GltfExtras,
    pub pb_metallic_roughness: Option<GltfPbrMetallicRoughness>,
    pub normal_texture: Option<GltfNormalTextureInfo>,
    pub occlusion_texture: Option<GltfOcclusionTextureInfo>,
    pub emissive_texture: Option<GltfTextureInfo>,
    pub emissive_factor: Option<Vec<i64>>,
    pub alpha_mode: Option<GltfMaterialAlphaMode>,
    pub alpha_cutoff: Option<i64>,
    pub double_sided: Option<bool>,
}

/// The object parses as a `GltfMaterial`.
pub open spec fn material_valid(v: JsonValue) -> bool {
    match v {
        JsonValue::Obj(f) => {
            &&& (opt_string_spec(f@, "name"@) is Ok)
            &&& (match lookup_spec(f@, "pbrMetallicRoughness"@) {
            None => true,
            Some(o) => pbr_valid(o),
        })
            &&& (match lookup_spec(f@, "normalTexture"@) {
            None => true,
            Some(o) => normal_texture_info_valid(o),
        })
            &&& (match lookup_spec(f@, "occlusionTexture"@) {
            None => true,
            Some(o) => occlusion_texture_info_valid(o),
        })
            &&& (match lookup_spec(f@, "emissiveTexture"@) {
            None => true,
            Some(o) => texture_info_valid(o),
        })
            &&& (match lookup_spec(f@, "emissiveFactor"@) {
            None => true,
            Some(JsonValue::Arr(items)) => nano_list_val(items@) is Ok && (match nano_list_val(items@) { Ok(l) => l.len() == 3, Err(_) => false }),
            Some(_) => false,
        })
            &&& (match opt_string_spec(f@, "alphaMode"@) {
            Ok(None) => true,
            Ok(Some(n)) => alpha_from_name(n@) is Some,
            Err(_) => false,
        })
            &&& (opt_nano_spec(f@, "alphaCutoff"@, Some(500_000_000i64)) is Ok)
            &&& (opt_bool_spec(f@, "doubleSided"@, None) is Ok)
        },
        _ => false,
    }
}

/// How a parsed `GltfMaterial` relates to the object it was read from.
pub open spec fn material_of(x: GltfMaterial, v: JsonValue) -> bool {
    match v {
        JsonValue::Obj(f) => {
            &&& (opt_string_spec(f@, "name"@) == Ok::<Option<String>, ParseError>(x.name))
            &&& (extras_of(x.extras, f@))
            &&& (match lookup_spec(f@, "pbrMetallicRoughness"@) {
            None => x.pb_metallic_roughness is None,
            Some(o) => x.pb_metallic_roughness matches Some(s) && pbr_of(s, o),
        })
            &&& (match lookup_spec(f@, "normalTexture"@) {
            None => x.normal_texture is None,
            Some(o) => x.normal_texture matches Some(s) && normal_texture_info_of(s, o),
        })
            &&& (match lookup_spec(f@, "occlusionTexture"@) {
            None => x.occlusion_texture is None,
            Some(o) => x.occlusion_texture matches Some(s) && occlusion_texture_info_of(s, o),
        })
            &&& (match lookup_spec(f@, "emissiveTexture"@) {
            None => x.emissive_texture is None,
            Some(o) => x.emissive_texture matches Some(s) && texture_info_of(s, o),
        })
            &&& (match lookup_spec(f@, "emissiveFactor"@) {
            None => x.emissive_factor matches Some(l) && l@ == zeros3_nano(),
            Some(JsonValue::Arr(items)) => x.emissive_factor matches Some(l) && nano_list_val(items@) == Ok::<Seq<i64>, ParseError>(l@),
            Some(_) => false,
        })
            &&& (match opt_string_spec(f@, "alphaMode"@) {
            Ok(None) => x.alpha_mode is None,
            Ok(Some(n)) => x.alpha_mode matches Some(m) && alpha_from_name(n@) == Some(m),
            Err(_) => false,
        })
            &&& (opt_nano_spec(f@, "alphaCutoff"@, Some(500_000_000i64)) == Ok::<Option<i64>, ParseError>(x.alpha_cutoff))
            &&& (opt_bool_spec(f@, "doubleSided"@, None) == Ok::<Option<bool>, ParseError>(x.double_sided))
        },
        _ => false,
    }
}

/// Parse a `GltfMaterial` from a value.
pub fn parse_material(v: &JsonValue) -> (r: Result<GltfMaterial, ParseError>)
    ensures
        r is Ok <==> material_valid(*v),
        r matches Ok(x) ==> material_of(x, *v),
{
    let fields = match v {
        JsonValue::Obj(f) => f,
        _ => { return Err(ParseError::NotAnObject); },
    };
    let name = match opt_string(fields, "name") { Ok(x) => x, Err(e) => return Err(e) };
    let extras = parse_extras(fields);
    let pb_metallic_roughness = match get_field(fields, "pbrMetallicRoughness") {
        None => None,
        Some(o) => match parse_pbr(o) {
            Ok(x) => Some(x),
            Err(e) => return Err(e),
        },
    };
    let normal_texture = match get_field(fields, "normalTexture") {
        None => None,
        Some(o) => match parse_normal_texture_info(o) {
            Ok(x) => Some(x),
            Err(e) => return Err(e),
        },
    };
    let occlusion_texture = match get_field(fields, "occlusionTexture") {
        None => None,
        Some(o) => match parse_occlusion_texture_info(o) {
            Ok(x) => Some(x),
            Err(e) => return Err(e),
        },
    };
    let emissive_texture = match get_field(fields, "emissiveTexture") {
        None => None,
        Some(o) => match parse_texture_info(o) {
            Ok(x) => Some(x),
            Err(e) => return Err(e),
        },
    };
    let emissive_factor = match get_field(fields, "emissiveFactor") {
        None => Some(zeros3_nano_exec()),
        Some(JsonValue::Arr(items)) => match parse_nano_list(items) {
            Ok(x) => {
            if x.len() != 3 {
                return Err(ParseError::WrongType);
            }
                Some(x)
            },
            Err(e) => return Err(e),
        },
        Some(_) => return Err(ParseError::WrongType),
    };
    let alpha_mode = match opt_string(fields, "alphaMode") {
        Ok(None) => None,
        Ok(Some(n)) => match alpha_of_name(&n) {
            Some(m) => Some(m),
            None => return Err(ParseError::BadEnum),
        },
        Err(e) => return Err(e),
    };
    let alpha_cutoff = match opt_nano(fields, "alphaCutoff", Some(500_000_000i64)) { Ok(x) => x, Err(e) => return Err(e) };
    let double_sided = match opt_bool(fields, "doubleSided", None) { Ok(x) => x, Err(e) => return Err(e) };
    Ok(GltfMaterial { name, extras, pb_metallic_roughness, normal_texture, occlusion_texture, emissive_texture, emissive_factor, alpha_mode, alpha_cutoff, double_sided })
}

/// Parse a list of `GltfMaterial` values.
pub fn parse_material_list(items: &Vec<JsonValue>) -> (r: Result<Vec<GltfMaterial>, ParseError>)
    ensures
        r is Ok <==> (forall|i: int| 0 <= i < items@.len() ==> material_valid(#[trigger] items@[i])),
        r matches Ok(out) ==> out@.len() == items@.len() && (forall|i: int|
            0 <= i < items@.len() ==> material_of(#[trigger] out@[i], items@[i])),
{
    let mut out: Vec<GltfMaterial> = Vec::new();
    let mut i: usize = 0;
    while i < items.len()
        invariant
            i <= items@.len(),
            out@.len() == i as int,
            forall|k: int| 0 <= k < i ==> material_valid(#[trigger] items@[k]),
            forall|k: int| 0 <= k < i ==> material_of(#[trigger] out@[k], items@[k]),
        decreases items@.len() - i,
    {
        match parse_material(&items[i]) {
            Ok(x) => out.push(x),
            Err(e) => { return Err(e); },
        }
        i += 1;
    }
    Ok(out)
}

/// One drawable unit: attribute accessors, an optional index accessor, and a topology.
#[derive(Debug)]
pub struct GltfMeshPrimitive {
    pub attributes: Vec<(GltfMeshPrimitiveAttr, usize)>,
    pub indices: Option<usize>,
    pub material: Option<usize>,
    pub mode: Option<GltfMeshPrimitiveMode>,
    pub targets: Option<JsonValue>,
    pub extras: GltfExtras,
}

/// The object parses as a `GltfMeshPrimitive`.
pub open spec fn primitive_valid(v: JsonValue) -> bool {
    match v {
        JsonValue::Obj(f) => {
            &&& (match lookup_spec(f@, "attributes"@) {
            Some(JsonValue::Obj(entries)) => forall|i: int|
                0 <= i < entries@.len() ==> attr_entry_valid(#[trigger] entries@[i]),
            _ => false,
        })
            &&& (opt_index_spec(f@, "indices"@, None) is Ok)
            &&& (opt_index_spec(f@, "material"@, None) is Ok)
            &&& (match opt_index_spec(f@, "mode"@, None) {
            Ok(None) => true,
            Ok(Some(n)) => mode_from_code(n as int) is Some,
            Err(_) => false,
        })
        },
        _ => false,
    }
}

/// How a parsed `GltfMeshPrimitive` relates to the object it was read from.
pub open spec fn primitive_of(x: GltfMeshPrimitive, v: JsonValue) -> bool {
    match v {
        JsonValue::Obj(f) => {
            &&& (match lookup_spec(f@, "attributes"@) {
            Some(JsonValue::Obj(entries)) => x.attributes@.len() == entries@.len() && (forall|i: int|
                0 <= i < entries@.len() ==> attr_entry_of(#[trigger] x.attributes@[i], entries@[i])),
            _ => false,
        })
            &&& (opt_index_spec(f@, "indices"@, None) == Ok::<Option<usize>, ParseError>(x.indices))
            &&& (opt_index_spec(f@, "material"@, None) == Ok::<Option<usize>, ParseError>(x.material))
            &&& (match opt_index_spec(f@, "mode"@, None) {
            Ok(None) => x.mode is None,
            Ok(Some(n)) => x.mode matches Some(m) && mode_from_code(n as int) == Some(m),
            Err(_) => false,
        })
            &&& (match lookup_spec(f@, "targets"@) {
            None => x.targets is None,
            Some(orig) => x.targets matches Some(c) && json_eq(orig, c),
        })
            &&& (extras_of(x.extras, f@))
        },
        _ => false,
    }
}

/// Parse a `GltfMeshPrimitive` from a value.
pub fn parse_primitive(v: &JsonValue) -> (r: Result<GltfMeshPrimitive, ParseError>)
    ensures
        r is Ok <==> primitive_valid(*v),
        r matches Ok(x) ==> primitive_of(x, *v),
{
    let fields = match v {
        JsonValue::Obj(f) => f,
        _ => { return Err(ParseError::NotAnObject); },
    };
    let attributes = match get_field(fields, "attributes") {
        Some(JsonValue::Obj(entries)) => match parse_attr_entries(entries) {
            Ok(x) => x,
            Err(e) => return Err(e),
        },
        _ => return Err(ParseError::MissingField),
    };
    let indices = match opt_index(fields, "indices", None) { Ok(x) => x, Err(e) => return Err(e) };
    let material = match opt_index(fields, "material", None) { Ok(x) => x, Err(e) => return Err(e) };
    let mode = match opt_index(fields, "mode", None) {
        Ok(None) => None,
        Ok(Some(n)) => match GltfMeshPrimitiveMode::from_code(n) {
            Some(m) => Some(m),
            None => return Err(ParseError::BadEnum),
        },
        Err(e) => return Err(e),
    };
    let targets = match get_field(fields, "targets") {
        None => None,
        Some(orig) => Some(duplicate(orig)),
    };
    let extras = parse_extras(fields);
    Ok(GltfMeshPrimitive { attributes, indices, material, mode, targets, extras })
}

/// Parse a list of `GltfMeshPrimitive` values.
pub fn parse_primitive_list(items: &Vec<JsonValue>) -> (r: Result<Vec<GltfMeshPrimitive>, ParseError>)
    ensures
        r is Ok <==> (forall|i: int| 0 <= i < items@.len() ==> primitive_valid(#[trigger] items@[i])),
        r matches Ok(out) ==> out@.len() == items@.len() && (forall|i: int|
            0 <= i < items@.len() ==> primitive_of(#[trigger] out@[i], items@[i])),
{
    let mut out: Vec<GltfMeshPrimitive> = Vec::new();
    let mut i: usize = 0;
    while i < items.len()
        invariant
            i <= items@.len(),
            out@.len() == i as int,
            forall|k: int| 0 <= k < i ==> primitive_valid(#[trigger] items@[k]),
            forall|k: int| 0 <= k < i ==> primitive_of(#[trigger] out@[k], items@[k]),
        decreases items@.len() - i,
    {
        match parse_primitive(&items[i]) {
            Ok(x) => out.push(x),
            Err(e) => { return Err(e); },
        }
        i += 1;
    }
    Ok(out)
}

/// A set of primitives rendered together.
#[derive(Debug)]
pub struct GltfMesh {
    pub primitives: Vec<GltfMeshPrimitive>,
    pub weights: Option<Vec<i64>>,
    pub name: Option<String>,
    pub extras: GltfExtras,
}

/// The object parses as a `GltfMesh`.
pub open spec fn mesh_valid(v: JsonValue) -> bool {
    match v {
        JsonValue::Obj(f) => {
            &&& (match lookup_spec(f@, "primitives"@) {
            Some(JsonValue::Arr(items)) => forall|i: int|
                0 <= i < items@.len() ==> primitive_valid(#[trigger] items@[i]),
            _ => false,
        })
            &&& (match lookup_spec(f@, "weights"@) {
            None => true,
            Some(JsonValue::Arr(items)) => nano_list_val(items@) is Ok,
            Some(_) => false,
        })
            &&& (opt_string_spec(f@, "name"@) is Ok)
        },
        _ => false,
    }
}

/// How a parsed `GltfMesh` relates to the object it was read from.
pub open spec fn mesh_of(x: GltfMesh, v: JsonValue) -> bool {
    match v {
        JsonValue::Obj(f) => {
            &&& (match lookup_spec(f@, "primitives"@) {
            Some(JsonValue::Arr(items)) => x.primitives@.len() == items@.len() && (forall|i: int|
                0 <= i < items@.len() ==> primitive_of(#[trigger] x.primitives@[i], items@[i])),
            _ => false,
        })
            &&& (match lookup_spec(f@, "weights"@) {
            None => x.weights is None,
            Some(JsonValue::Arr(items)) => x.weights matches Some(l) && nano_list_val(items@) == Ok::<Seq<i64>, ParseError>(l@),
            Some(_) => false,
        })
            &&& (opt_string_spec(f@, "name"@) == Ok::<Option<String>, ParseError>(x.name))
            &&& (extras_of(x.extras, f@))
        },
        _ => false,
    }
}

/// Parse a `GltfMesh` from a value.
pub fn parse_mesh(v: &JsonValue) -> (r: Result<GltfMesh, ParseError>)
    ensures
        r is Ok <==> mesh_valid(*v),
        r matches Ok(x) ==> mesh_of(x, *v),
{
    let fields = match v {
        JsonValue::Obj(f) => f,
        _ => { return Err(ParseError::NotAnObject); },
    };
    let primitives = match get_field(fields, "primitives") {
        Some(JsonValue::Arr(items)) => match parse_primitive_list(items) {
            Ok(x) => x,
            Err(e) => return Err(e),
        },
        _ => return Err(ParseError::MissingField),
    };
    let weights = match get_field(fields, "weights") {
        None => None,
        Some(JsonValue::Arr(items)) => match parse_nano_list(items) {
            Ok(x) => {
                Some(x)
            },
            Err(e) => return Err(e),
        },
        Some(_) => return Err(ParseError::WrongType),
    };
    let name = match opt_string(fields, "name") { Ok(x) => x, Err(e) => return Err(e) };
    let extras = parse_extras(fields);
    Ok(GltfMesh { primitives, weights, name, extras })
}

/// Parse a list of `GltfMesh` values.
pub fn parse_mesh_list(items: &Vec<JsonValue>) -> (r: Result<Vec<GltfMesh>, ParseError>)
    ensures
        r is Ok <==> (forall|i: int| 0 <= i < items@.len() ==> mesh_valid(#[trigger] items@[i])),
        r matches Ok(out) ==> out@.len() == items@.len() && (forall|i: int|
            0 <= i < items@.len() ==> mesh_of(#[trigger] out@[i], items@[i])),
{
    let mut out: Vec<GltfMesh> = Vec::new();
    let mut i: usize = 0;
    while i < items.len()
        invariant
            i <= items@.len(),
            out@.len() == i as int,
            forall|k: int| 0 <= k < i ==> mesh_valid(#[trigger] items@[k]),
            forall|k: int| 0 <= k < i ==> mesh_of(#[trigger] out@[k], items@[k]),
        decreases items@.len() - i,
    {
        match parse_mesh(&items[i]) {
            Ok(x) => out.push(x),
            Err(e) => { return Err(e); },
        }
        i += 1;
    }
    Ok(out)
}

/// Where the indices of deviating sparse values live.
#[derive(Debug)]
pub struct GltfAccessorSparseIndices {
    pub buffer_view: usize,
    pub buffer_offset: Option<usize>,
    pub component_type: usize,
    pub extras: GltfExtras,
}

/// The object parses as a `GltfAccessorSparseIndices`.
pub open spec fn sparse_indices_valid(v: JsonValue) -> bool {
    match v {
        JsonValue::Obj(f) => {
            &&& (req_index_spec(f@, "bufferView"@) is Ok)
            &&& (opt_index_spec(f@, "byteOffset"@, None) is Ok)
            &&& (req_index_spec(f@, "componentType"@) is Ok)
        },
        _ => false,
    }
}

/// How a parsed `GltfAccessorSparseIndices` relates to the object it was read from.
pub open spec fn sparse_indices_of(x: GltfAccessorSparseIndices, v: JsonValue) -> bool {
    match v {
        JsonValue::Obj(f) => {
            &&& (req_index_spec(f@, "bufferView"@) == Ok::<usize, ParseError>(x.buffer_view))
            &&& (opt_index_spec(f@, "byteOffset"@, None) == Ok::<Option<usize>, ParseError>(x.buffer_offset))
            &&& (req_index_spec(f@, "componentType"@) == Ok::<usize, ParseError>(x.component_type))
            &&& (extras_of(x.extras, f@))
        },
        _ => false,
    }
}

/// Parse a `GltfAccessorSparseIndices` from a value.
pub fn parse_sparse_indices(v: &JsonValue) -> (r: Result<GltfAccessorSparseIndices, ParseError>)
    ensures
        r is Ok <==> sparse_indices_valid(*v),
        r matches Ok(x) ==> sparse_indices_of(x, *v),
{
    let fields = match v {
        JsonValue::Obj(f) => f,
        _ => { return Err(ParseError::NotAnObject); },
    };
    let buffer_view = match req_index(fields, "bufferView") { Ok(x) => x, Err(e) => return Err(e) };
    let buffer_offset = match opt_index(fields, "byteOffset", None) { Ok(x) => x, Err(e) => return Err(e) };
    let component_type = match req_index(fields, "componentType") { Ok(x) => x, Err(e) => return Err(e) };
    let extras = parse_extras(fields);
    Ok(GltfAccessorSparseIndices { buffer_view, buffer_offset, component_type, extras })
}

/// Where the deviating sparse values live.
#[derive(Debug)]
pub struct GltfAccessorSparseValues {
    pub buffer_view: usize,
    pub buffer_offset: Option<usize>,
    pub extras: GltfExtras,
}

/// The object parses as a `GltfAccessorSparseValues`.
pub open spec fn sparse_values_valid(v: JsonValue) -> bool {
    match v {
        JsonValue::Obj(f) => {
            &&& (req_index_spec(f@, "bufferView"@) is Ok)
            &&& (opt_index_spec(f@, "byteOffset"@, None) is Ok)
        },
        _ => false,
    }
}

/// How a parsed `GltfAccessorSparseValues` relates to the object it was read from.
pub open spec fn sparse_values_of(x: GltfAccessorSparseValues, v: JsonValue) -> bool {
    match v {
        JsonValue::Obj(f) => {
            &&& (req_index_spec(f@, "bufferView"@) == Ok::<usize, ParseError>(x.buffer_view))
            &&& (opt_index_spec(f@, "byteOffset"@, None) == Ok::<Option<usize>, ParseError>(x.buffer_offset))
            &&& (extras_of(x.extras, f@))
        },
        _ => false,
    }
}

/// Parse a `GltfAccessorSparseValues` from a value.
pub fn parse_sparse_values(v: &JsonValue) -> (r: Result<GltfAccessorSparseValues, ParseError>)
    ensures
        r is Ok <==> sparse_values_valid(*v),
        r matches Ok(x) ==> sparse_values_of(x, *v),
{
    let fields = match v {
        JsonValue::Obj(f) => f,
        _ => { return Err(ParseError::NotAnObject); },
    };
    let buffer_view = match req_index(fields, "bufferView") { Ok(x) => x, Err(e) => return Err(e) };
    let buffer_offset = match opt_index(fields, "byteOffset", None) { Ok(x) => x, Err(e) => return Err(e) };
    let extras = parse_extras(fields);
    Ok(GltfAccessorSparseValues { buffer_view, buffer_offset, extras })
}

/// Sparse storage of elements that deviate from their initialization value.
#[derive(Debug)]
pub struct GltfAccessorSparse {
    pub count: usize,
    pub indices: GltfAccessorSparseIndices,
    pub values: GltfAccessorSparseValues,
    pub extras: GltfExtras,
}

/// The object parses as a `GltfAccessorSparse`.
pub open spec fn sparse_valid(v: JsonValue) -> bool {
    match v {
        JsonValue::Obj(f) => {
            &&& (req_index_spec(f@, "count"@) is Ok)
            &&& (match lookup_spec(f@, "indices"@) {
            None => false,
            Some(o) => sparse_indices_valid(o),
        })
            &&& (match lookup_spec(f@, "values"@) {
            None => false,
            Some(o) => sparse_values_valid(o),
        })
        },
        _ => false,
    }
}

/// How a parsed `GltfAccessorSparse` relates to the object it was read from.
pub open spec fn sparse_of(x: GltfAccessorSparse, v: JsonValue) -> bool {
    match v {
        JsonValue::Obj(f) => {
            &&& (req_index_spec(f@, "count"@) == Ok::<usize, ParseError>(x.count))
            &&& (match lookup_spec(f@, "indices"@) {
            Some(o) => sparse_indices_of(x.indices, o),
            None => false,
        })
            &&& (match lookup_spec(f@, "values"@) {
            Some(o) => sparse_values_of(x.values, o),
            None => false,
        })
            &&& (extras_of(x.extras, f@))
        },
        _ => false,
    }
}

/// Parse a `GltfAccessorSparse` from a value.
pub fn parse_sparse(v: &JsonValue) -> (r: Result<GltfAccessorSparse, ParseError>)
    ensures
        r is Ok <==> sparse_valid(*v),
        r matches Ok(x) ==> sparse_of(x, *v),
{
    let fields = match v {
        JsonValue::Obj(f) => f,
        _ => { return Err(ParseError::NotAnObject); },
    };
    let count = match req_index(fields, "count") { Ok(x) => x, Err(e) => return Err(e) };
    let indices = match get_field(fields, "indices") {
        None => return Err(ParseError::MissingField),
        Some(o) => match parse_sparse_indices(o) {
            Ok(x) => x,
            Err(e) => return Err(e),
        },
    };
    let values = match get_field(fields, "values") {
        None => return Err(ParseError::MissingField),
        Some(o) => match parse_sparse_values(o) {
            Ok(x) => x,
            Err(e) => return Err(e),
        },
    };
    let extras = parse_extras(fields);
    Ok(GltfAccessorSparse { count, indices, values, extras })
}

/// How to read a typed, strided run of elements out of a buffer view.
#[derive(Debug)]
pub struct GltfAccessor {
    pub buffer_view: Option<usize>,
    pub byte_offset: Option<usize>,
    pub component_type: GltfAccessorComponentType,
    pub normalized: Option<bool>,
    pub count: usize,
    pub accessor_type: GltfAccessorType,
    pub max: Option<Vec<i64>>,
    pub min: Option<Vec<i64>>,
    pub sparse: Option<GltfAccessorSparse>,
    pub name: Option<String>,
    pub extras: GltfExtras,
}

/// The object parses as a `GltfAccessor`.
pub open spec fn accessor_valid(v: JsonValue) -> bool {
    match v {
        JsonValue::Obj(f) => {
            &&& (opt_index_spec(f@, "bufferView"@, Some(0)) is Ok)
            &&& (opt_index_spec(f@, "byteOffset"@, Some(0)) is Ok)
            &&& (match req_index_spec(f@, "componentType"@) {
            Ok(n) => component_from_code(n as int) is Some,
            Err(_) => false,
        })
            &&& (opt_bool_spec(f@, "normalized"@, None) is Ok)
            &&& (req_index_spec(f@, "count"@) is Ok)
            &&& (match req_string_spec(f@, "type"@) {
            Ok(n) => type_from_name(n@) is Some,
            Err(_) => false,
        })
            &&& (match lookup_spec(f@, "max"@) {
            None => true,
            Some(JsonValue::Arr(items)) => nano_list_val(items@) is Ok,
            Some(_) => false,
        })
            &&& (match lookup_spec(f@, "min"@) {
            None => true,
            Some(JsonValue::Arr(items)) => nano_list_val(items@) is Ok,
            Some(_) => false,
        })
            &&& (match lookup_spec(f@, "sparse"@) {
            None => true,
            Some(o) => sparse_valid(o),
        })
            &&& (opt_string_spec(f@, "name"@) is Ok)
        },
        _ => false,
    }
}

/// How a parsed `GltfAccessor` relates to the object it was read from.
pub open spec fn accessor_of(x: GltfAccessor, v: JsonValue) -> bool {
    match v {
        JsonValue::Obj(f) => {
            &&& (opt_index_spec(f@, "bufferView"@, Some(0)) == Ok::<Option<usize>, ParseError>(x.buffer_view))
            &&& (opt_index_spec(f@, "byteOffset"@, Some(0)) == Ok::<Option<usize>, ParseError>(x.byte_offset))
            &&& (match req_index_spec(f@, "componentType"@) {
            Ok(n) => component_from_code(n as int) == Some(x.component_type),
            Err(_) => false,
        })
            &&& (opt_bool_spec(f@, "normalized"@, None) == Ok::<Option<bool>, ParseError>(x.normalized))
            &&& (req_index_spec(f@, "count"@) == Ok::<usize, ParseError>(x.count))
            &&& (match req_string_spec(f@, "type"@) {
            Ok(n) => type_from_name(n@) == Some(x.accessor_type),
            Err(_) => false,
        })
            &&& (match lookup_spec(f@, "max"@) {
            None => x.max is None,
            Some(JsonValue::Arr(items)) => x.max matches Some(l) && nano_list_val(items@) == Ok::<Seq<i64>, ParseError>(l@),
            Some(_) => false,
        })
            &&& (match lookup_spec(f@, "min"@) {
            None => x.min is None,
            Some(JsonValue::Arr(items)) => x.min matches Some(l) && nano_list_val(items@) == Ok::<Seq<i64>, ParseError>(l@),
            Some(_) => false,
        })
            &&& (match lookup_spec(f@, "sparse"@) {
            None => x.sparse is None,
            Some(o) => x.sparse matches Some(s) && sparse_of(s, o),
        })
            &&& (opt_string_spec(f@, "name"@) == Ok::<Option<String>, ParseError>(x.name))
            &&& (extras_of(x.extras, f@))
        },
        _ => false,
    }
}

/// Parse a `GltfAccessor` from a value.
pub fn parse_accessor(v: &JsonValue) -> (r: Result<GltfAccessor, ParseError>)
    ensures
        r is Ok <==> accessor_valid(*v),
        r matches Ok(x) ==> accessor_of(x, *v),
{
    let fields = match v {
        JsonValue::Obj(f) => f,
        _ => { return Err(ParseError::NotAnObject); },
    };
    let buffer_view = match opt_index(fields, "bufferView", Some(0)) { Ok(x) => x, Err(e) => return Err(e) };
    let byte_offset = match opt_index(fields, "byteOffset", Some(0)) { Ok(x) => x, Err(e) => return Err(e) };
    let component_type = match req_index(fields, "componentType") {
        Ok(n) => match GltfAccessorComponentType::from_code(n) {
            Some(m) => m,
            None => return Err(ParseError::BadEnum),
        },
        Err(e) => return Err(e),
    };
    let normalized = match opt_bool(fields, "normalized", None) { Ok(x) => x, Err(e) => return Err(e) };
    let count = match req_index(fields, "count") { Ok(x) => x, Err(e) => return Err(e) };
    let accessor_type = match req_string(fields, "type") {
        Ok(n) => match GltfAccessorType::from_name(n.as_str()) {
            Some(m) => m,
            None => return Err(ParseError::BadEnum),
        },
        Err(e) => return Err(e),
    };
    let max = match get_field(fields, "max") {
        None => None,
        Some(JsonValue::Arr(items)) => match parse_nano_list(items) {
            Ok(x) => {
                Some(x)
            },
            Err(e) => return Err(e),
        },
        Some(_) => return Err(ParseError::WrongType),
    };
    let min = match get_field(fields, "min") {
        None => None,
        Some(JsonValue::Arr(items)) => match parse_nano_list(items) {
            Ok(x) => {
                Some(x)
            },
            Err(e) => return Err(e),
        },
        Some(_) => return Err(ParseError::WrongType),
    };
    let sparse = match get_field(fields, "sparse") {
        None => None,
        Some(o) => match parse_sparse(o) {
            Ok(x) => Some(x),
            Err(e) => return Err(e),
        },
    };
    let name = match opt_string(fields, "name") { Ok(x) => x, Err(e) => return Err(e) };
    let extras = parse_extras(fields);
    Ok(GltfAccessor { buffer_view, byte_offset, component_type, normalized, count, accessor_type, max, min, sparse, name, extras })
}

/// Parse a list of `GltfAccessor` values.
pub fn parse_accessor_list(items: &Vec<JsonValue>) -> (r: Result<Vec<GltfAccessor>, ParseError>)
    ensures
        r is Ok <==> (forall|i: int| 0 <= i < items@.len() ==> accessor_valid(#[trigger] items@[i])),
        r matches Ok(out) ==> out@.len() == items@.len() && (forall|i: int|
            0 <= i < items@.len() ==> accessor_of(#[trigger] out@[i], items@[i])),
{
    let mut out: Vec<GltfAccessor> = Vec::new();
    let mut i: usize = 0;
    while i < items.len()
        invariant
            i <= items@.len(),
            out@.len() == i as int,
            forall|k: int| 0 <= k < i ==> accessor_valid(#[trigger] items@[k]),
            forall|k: int| 0 <= k < i ==> accessor_of(#[trigger] out@[k], items@[k]),
        decreases items@.len() - i,
    {
        match parse_accessor(&items[i]) {
            Ok(x) => out.push(x),
            Err(e) => { return Err(e); },
        }
        i += 1;
    }
    Ok(out)
}

/// A named sub-region of a raw binary buffer.
#[derive(Debug)]
pub struct GltfBufferView {
    pub buffer: usize,
    pub byte_offset: Option<usize>,
    pub byte_length: usize,
    pub byte_stride: Option<usize>,
    pub target: Option<usize>,
    pub name: Option<String>,
    pub extras: GltfExtras,
}

/// The object parses as a `GltfBufferView`.
pub open spec fn buffer_view_valid(v: JsonValue) -> bool {
    match v {
        JsonValue::Obj(f) => {
            &&& (req_index_spec(f@, "buffer"@) is Ok)
            &&& (opt_index_spec(f@, "byteOffset"@, Some(0)) is Ok)
            &&& (req_index_spec(f@, "byteLength"@) is Ok)
            &&& (opt_index_spec(f@, "byteStride"@, None) is Ok)
            &&& (opt_index_spec(f@, "target"@, None) is Ok)
            &&& (opt_string_spec(f@, "name"@) is Ok)
        },
        _ => false,
    }
}

/// How a parsed `GltfBufferView` relates to the object it was read from.
pub open spec fn buffer_view_of(x: GltfBufferView, v: JsonValue) -> bool {
    match v {
        JsonValue::Obj(f) => {
            &&& (req_index_spec(f@, "buffer"@) == Ok::<usize, ParseError>(x.buffer))
            &&& (opt_index_spec(f@, "byteOffset"@, Some(0)) == Ok::<Option<usize>, ParseError>(x.byte_offset))
            &&& (req_index_spec(f@, "byteLength"@) == Ok::<usize, ParseError>(x.byte_length))
            &&& (opt_index_spec(f@, "byteStride"@, None) == Ok::<Option<usize>, ParseError>(x.byte_stride))
            &&& (opt_index_spec(f@, "target"@, None) == Ok::<Option<usize>, ParseError>(x.target))
            &&& (opt_string_spec(f@, "name"@) == Ok::<Option<String>, ParseError>(x.name))
            &&& (extras_of(x.extras, f@))
        },
        _ => false,
    }
}

/// Parse a `GltfBufferView` from a value.
pub fn parse_buffer_view(v: &JsonValue) -> (r: Result<GltfBufferView, ParseError>)
    ensures
        r is Ok <==> buffer_view_valid(*v),
        r matches Ok(x) ==> buffer_view_of(x, *v),
{
    let fields = match v {
        JsonValue::Obj(f) => f,
        _ => { return Err(ParseError::NotAnObject); },
    };
    let buffer = match req_index(fields, "buffer") { Ok(x) => x, Err(e) => return Err(e) };
    let byte_offset = match opt_index(fields, "byteOffset", Some(0)) { Ok(x) => x, Err(e) => return Err(e) };
    let byte_length = match req_index(fields, "byteLength") { Ok(x) => x, Err(e) => return Err(e) };
    let byte_stride = match opt_index(fields, "byteStride", None) { Ok(x) => x, Err(e) => return Err(e) };
    let target = match opt_index(fields, "target", None) { Ok(x) => x, Err(e) => return Err(e) };
    let name = match opt_string(fields, "name") { Ok(x) => x, Err(e) => return Err(e) };
    let extras = parse_extras(fields);
    Ok(GltfBufferView { buffer, byte_offset, byte_length, byte_stride, target, name, extras })
}

/// Parse a list of `GltfBufferView` values.
pub fn parse_buffer_view_list(items: &Vec<JsonValue>) -> (r: Result<Vec<GltfBufferView>, ParseError>)
    ensures
        r is Ok <==> (forall|i: int| 0 <= i < items@.len() ==> buffer_view_valid(#[trigger] items@[i])),
        r matches Ok(out) ==> out@.len() == items@.len() && (forall|i: int|
            0 <= i < items@.len() ==> buffer_view_of(#[trigger] out@[i], items@[i])),
{
    let mut out: Vec<GltfBufferView> = Vec::new();
    let mut i: usize = 0;
    while i < items.len()
        invariant
            i <= items@.len(),
            out@.len() == i as int,
            forall|k: int| 0 <= k < i ==> buffer_view_valid(#[trigger] items@[k]),
            forall|k: int| 0 <= k < i ==> buffer_view_of(#[trigger] out@[k], items@[k]),
        decreases items@.len() - i,
    {
        match parse_buffer_view(&items[i]) {
            Ok(x) => out.push(x),
            Err(e) => { return Err(e); },
        }
        i += 1;
    }
    Ok(out)
}

/// A raw binary buffer, named by its source and declared length.
#[derive(Debug)]
pub struct GltfBuffer {
    pub uri: Option<String>,
    pub byte_length: usize,
    pub name: Option<String>,
    pub extras: GltfExtras,
}

/// The object parses as a `GltfBuffer`.
pub open spec fn buffer_valid(v: JsonValue) -> bool {
    match v {
        JsonValue::Obj(f) => {
            &&& (opt_string_spec(f@, "uri"@) is Ok)
            &&& (req_index_spec(f@, "byteLength"@) is Ok)
            &&& (opt_string_spec(f@, "name"@) is Ok)
        },
        _ => false,
    }
}

/// How a parsed `GltfBuffer` relates to the object it was read from.
pub open spec fn buffer_of(x: GltfBuffer, v: JsonValue) -> bool {
    match v {
        JsonValue::Obj(f) => {
            &&& (opt_string_spec(f@, "uri"@) == Ok::<Option<String>, ParseError>(x.uri))
            &&& (req_index_spec(f@, "byteLength"@) == Ok::<usize, ParseError>(x.byte_length))
            &&& (opt_string_spec(f@, "name"@) == Ok::<Option<String>, ParseError>(x.name))
            &&& (extras_of(x.extras, f@))
        },
        _ => false,
    }
}

/// Parse a `GltfBuffer` from a value.
pub fn parse_buffer(v: &JsonValue) -> (r: Result<GltfBuffer, ParseError>)
    ensures
        r is Ok <==> buffer_valid(*v),
        r matches Ok(x) ==> buffer_of(x, *v),
{
    let fields = match v {
        JsonValue::Obj(f) => f,
        _ => { return Err(ParseError::NotAnObject); },
    };
    let uri = match opt_string(fields, "uri") { Ok(x) => x, Err(e) => return Err(e) };
    let byte_length = match req_index(fields, "byteLength") { Ok(x) => x, Err(e) => return Err(e) };
    let name = match opt_string(fields, "name") { Ok(x) => x, Err(e) => return Err(e) };
    let extras = parse_extras(fields);
    Ok(GltfBuffer { uri, byte_length, name, extras })
}

/// Parse a list of `GltfBuffer` values.
pub fn parse_buffer_list(items: &Vec<JsonValue>) -> (r: Result<Vec<GltfBuffer>, ParseError>)
    ensures
        r is Ok <==> (forall|i: int| 0 <= i < items@.len() ==> buffer_valid(#[trigger] items@[i])),
        r matches Ok(out) ==> out@.len() == items@.len() && (forall|i: int|
            0 <= i < items@.len() ==> buffer_of(#[trigger] out@[i], items@[i])),
{
    let mut out: Vec<GltfBuffer> = Vec::new();
    let mut i: usize = 0;
    while i < items.len()
        invariant
            i <= items@.len(),
            out@.len() == i as int,
            forall|k: int| 0 <= k < i ==> buffer_valid(#[trigger] items@[k]),
            forall|k: int| 0 <= k < i ==> buffer_of(#[trigger] out@[k], items@[k]),
        decreases items@.len() - i,
    {
        match parse_buffer(&items[i]) {
            Ok(x) => out.push(x),
            Err(e) => { return Err(e); },
        }
        i += 1;
    }
    Ok(out)
}

/// Image data for a texture, by source or buffer view.
#[derive(Debug)]
pub struct GltfImage {
    pub uri: Option<String>,
    pub mime_type: Option<String>,
    pub buffer_view: Option<usize>,
    pub name: Option<String>,
    pub extras: GltfExtras,
}

/// The object parses as a `GltfImage`.
pub open spec fn image_valid(v: JsonValue) -> bool {
    match v {
        JsonValue::Obj(f) => {
            &&& (opt_string_spec(f@, "uri"@) is Ok)
            &&& (opt_string_spec(f@, "mimeType"@) is Ok)
            &&& (opt_index_spec(f@, "bufferView"@, None) is Ok)
            &&& (opt_string_spec(f@, "name"@) is Ok)
        },
        _ => false,
    }
}

/// How a parsed `GltfImage` relates to the object it was read from.
pub open spec fn image_of(x: GltfImage, v: JsonValue) -> bool {
    match v {
        JsonValue::Obj(f) => {
            &&& (opt_string_spec(f@, "uri"@) == Ok::<Option<String>, ParseError>(x.uri))
            &&& (opt_string_spec(f@, "mimeType"@) == Ok::<Option<String>, ParseError>(x.mime_type))
            &&& (opt_index_spec(f@, "bufferView"@, None) == Ok::<Option<usize>, ParseError>(x.buffer_view))
            &&& (opt_string_spec(f@, "name"@) == Ok::<Option<String>, ParseError>(x.name))
            &&& (extras_of(x.extras, f@))
        },
        _ => false,
    }
}

/// Parse a `GltfImage` from a value.
pub fn parse_image(v: &JsonValue) -> (r: Result<GltfImage, ParseError>)
    ensures
        r is Ok <==> image_valid(*v),
        r matches Ok(x) ==> image_of(x, *v),
{
    let fields = match v {
        JsonValue::Obj(f) => f,
        _ => { return Err(ParseError::NotAnObject); },
    };
    let uri = match opt_string(fields, "uri") { Ok(x) => x, Err(e) => return Err(e) };
    let mime_type = match opt_string(fields, "mimeType") { Ok(x) => x, Err(e) => return Err(e) };
    let buffer_view = match opt_index(fields, "bufferView", None) { Ok(x) => x, Err(e) => return Err(e) };
    let name = match opt_string(fields, "name") { Ok(x) => x, Err(e) => return Err(e) };
    let extras = parse_extras(fields);
    Ok(GltfImage { uri, mime_type, buffer_view, name, extras })
}

/// Parse a list of `GltfImage` values.
pub fn parse_image_list(items: &Vec<JsonValue>) -> (r: Result<Vec<GltfImage>, ParseError>)
    ensures
        r is Ok <==> (forall|i: int| 0 <= i < items@.len() ==> image_valid(#[trigger] items@[i])),
        r matches Ok(out) ==> out@.len() == items@.len() && (forall|i: int|
            0 <= i < items@.len() ==> image_of(#[trigger] out@[i], items@[i])),
{
    let mut out: Vec<GltfImage> = Vec::new();
    let mut i: usize = 0;
    while i < items.len()
        invariant
            i <= items@.len(),
            out@.len() == i as int,
            forall|k: int| 0 <= k < i ==> image_valid(#[trigger] items@[k]),
            forall|k: int| 0 <= k < i ==> image_of(#[trigger] out@[k], items@[k]),
        decreases items@.len() - i,
    {
        match parse_image(&items[i]) {
            Ok(x) => out.push(x),
            Err(e) => { return Err(e); },
        }
        i += 1;
    }
    Ok(out)
}

/// Texture sampler filtering and wrapping modes.
#[derive(Debug)]
pub struct GltfSampler {
    pub mag_filter: Option<usize>,
    pub min_filter: Option<usize>,
    pub wrap_s: Option<GltfSamplerWrap>,
    pub wrap_t: Option<GltfSamplerWrap>,
    pub name: Option<String>,
    pub extras: GltfExtras,
}

/// The object parses as a `GltfSampler`.
pub open spec fn sampler_valid(v: JsonValue) -> bool {
    match v {
        JsonValue::Obj(f) => {
            &&& (opt_index_spec(f@, "magFilter"@, None) is Ok)
            &&& (opt_index_spec(f@, "minFilter"@, None) is Ok)
            &&& (match opt_index_spec(f@, "wrapS"@, None) {
            Ok(None) => true,
            Ok(Some(n)) => wrap_from_code(n as int) is Some,
            Err(_) => false,
        })
            &&& (match opt_index_spec(f@, "wrapT"@, None) {
            Ok(None) => true,
            Ok(Some(n)) => wrap_from_code(n as int) is Some,
            Err(_) => false,
        })
            &&& (opt_string_spec(f@, "name"@) is Ok)
        },
        _ => false,
    }
}

/// How a parsed `GltfSampler` relates to the object it was read from.
pub open spec fn sampler_of(x: GltfSampler, v: JsonValue) -> bool {
    match v {
        JsonValue::Obj(f) => {
            &&& (opt_index_spec(f@, "magFilter"@, None) == Ok::<Option<usize>, ParseError>(x.mag_filter))
            &&& (opt_index_spec(f@, "minFilter"@, None) == Ok::<Option<usize>, ParseError>(x.min_filter))
            &&& (match opt_index_spec(f@, "wrapS"@, None) {
            Ok(None) => x.wrap_s == Some(GltfSamplerWrap::Repeat),
            Ok(Some(n)) => x.wrap_s matches Some(m) && wrap_from_code(n as int) == Some(m),
            Err(_) => false,
        })
            &&& (match opt_index_spec(f@, "wrapT"@, None) {
            Ok(None) => x.wrap_t == Some(GltfSamplerWrap::Repeat),
            Ok(Some(n)) => x.wrap_t matches Some(m) && wrap_from_code(n as int) == Some(m),
            Err(_) => false,
        })
            &&& (opt_string_spec(f@, "name"@) == Ok::<Option<String>, ParseError>(x.name))
            &&& (extras_of(x.extras, f@))
        },
        _ => false,
    }
}

/// Parse a `GltfSampler` from a value.
pub fn parse_sampler(v: &JsonValue) -> (r: Result<GltfSampler, ParseError>)
    ensures
        r is Ok <==> sampler_valid(*v),
        r matches Ok(x) ==> sampler_of(x, *v),
{
    let fields = match v {
        JsonValue::Obj(f) => f,
        _ => { return Err(ParseError::NotAnObject); },
    };
    let mag_filter = match opt_index(fields, "magFilter", None) { Ok(x) => x, Err(e) => return Err(e) };
    let min_filter = match opt_index(fields, "minFilter", None) { Ok(x) => x, Err(e) => return Err(e) };
    let wrap_s = match opt_index(fields, "wrapS", None) {
        Ok(None) => Some(GltfSamplerWrap::Repeat),
        Ok(Some(n)) => match GltfSamplerWrap::from_code(n) {
            Some(m) => Some(m),
            None => return Err(ParseError::BadEnum),
        },
        Err(e) => return Err(e),
    };
    let wrap_t = match opt_index(fields, "wrapT", None) {
        Ok(None) => Some(GltfSamplerWrap::Repeat),
        Ok(Some(n)) => match GltfSamplerWrap::from_code(n) {
            Some(m) => Some(m),
            None => return Err(ParseError::BadEnum),
        },
        Err(e) => return Err(e),
    };
    let name = match opt_string(fields, "name") { Ok(x) => x, Err(e) => return Err(e) };
    let extras = parse_extras(fields);
    Ok(GltfSampler { mag_filter, min_filter, wrap_s, wrap_t, name, extras })
}

/// Parse a list of `GltfSampler` values.
pub fn parse_sampler_list(items: &Vec<JsonValue>) -> (r: Result<Vec<GltfSampler>, ParseError>)
    ensures
        r is Ok <==> (forall|i: int| 0 <= i < items@.len() ==> sampler_valid(#[trigger] items@[i])),
        r matches Ok(out) ==> out@.len() == items@.len() && (forall|i: int|
            0 <= i < items@.len() ==> sampler_of(#[trigger] out@[i], items@[i])),
{
    let mut out: Vec<GltfSampler> = Vec::new();
    let mut i: usize = 0;
    while i < items.len()
        invariant
            i <= items@.len(),
            out@.len() == i as int,
            forall|k: int| 0 <= k < i ==> sampler_valid(#[trigger] items@[k]),
            forall|k: int| 0 <= k < i ==> sampler_of(#[trigger] out@[k], items@[k]),
        decreases items@.len() - i,
    {
        match parse_sampler(&items[i]) {
            Ok(x) => out.push(x),
            Err(e) => { return Err(e); },
        }
        i += 1;
    }
    Ok(out)
}

/// A texture: a sampler and an image source.
#[derive(Debug)]
pub struct GltfTexture {
    pub sampler: Option<usize>,
    pub source: Option<usize>,
    pub name: Option<String>,
    pub extras: GltfExtras,
}

/// The object parses as a `GltfTexture`.
pub open spec fn texture_valid(v: JsonValue) -> bool {
    match v {
        JsonValue::Obj(f) => {
            &&& (opt_index_spec(f@, "sampler"@, None) is Ok)
            &&& (opt_index_spec(f@, "source"@, None) is Ok)
            &&& (opt_string_spec(f@, "name"@) is Ok)
        },
        _ => false,
    }
}

/// How a parsed `GltfTexture` relates to the object it was read from.
pub open spec fn texture_of(x: GltfTexture, v: JsonValue) -> bool {
    match v {
        JsonValue::Obj(f) => {
            &&& (opt_index_spec(f@, "sampler"@, None) == Ok::<Option<usize>, ParseError>(x.sampler))
            &&& (opt_index_spec(f@, "source"@, None) == Ok::<Option<usize>, ParseError>(x.source))
            &&& (opt_string_spec(f@, "name"@) == Ok::<Option<String>, ParseError>(x.name))
            &&& (extras_of(x.extras, f@))
        },
        _ => false,
    }
}

/// Parse a `GltfTexture` from a value.
pub fn parse_texture(v: &JsonValue) -> (r: Result<GltfTexture, ParseError>)
    ensures
        r is Ok <==> texture_valid(*v),
        r matches Ok(x) ==> texture_of(x, *v),
{
    let fields = match v {
        JsonValue::Obj(f) => f,
        _ => { return Err(ParseError::NotAnObject); },
    };
    let sampler = match opt_index(fields, "sampler", None) { Ok(x) => x, Err(e) => return Err(e) };
    let source = match opt_index(fields, "source", None) { Ok(x) => x, Err(e) => return Err(e) };
    let name = match opt_string(fields, "name") { Ok(x) => x, Err(e) => return Err(e) };
    let extras = parse_extras(fields);
    Ok(GltfTexture { sampler, source, name, extras })
}

/// Parse a list of `GltfTexture` values.
pub fn parse_texture_list(items: &Vec<JsonValue>) -> (r: Result<Vec<GltfTexture>, ParseError>)
    ensures
        r is Ok <==> (forall|i: int| 0 <= i < items@.len() ==> texture_valid(#[trigger] items@[i])),
        r matches Ok(out) ==> out@.len() == items@.len() && (forall|i: int|
            0 <= i < items@.len() ==> texture_of(#[trigger] out@[i], items@[i])),
{
    let mut out: Vec<GltfTexture> = Vec::new();
    let mut i: usize = 0;
    while i < items.len()
        invariant
            i <= items@.len(),
            out@.len() == i as int,
            forall|k: int| 0 <= k < i ==> texture_valid(#[trigger] items@[k]),
            forall|k: int| 0 <= k < i ==> texture_of(#[trigger] out@[k], items@[k]),
        decreases items@.len() - i,
    {
        match parse_texture(&items[i]) {
            Ok(x) => out.push(x),
            Err(e) => { return Err(e); },
        }
        i += 1;
    }
    Ok(out)
}

/// One attribute entry: a standard semantic name bound to an accessor index.
pub open spec fn attr_entry_valid(e: (String, JsonValue)) -> bool {
    attr_from_name(e.0@) is Some && (e.1 matches JsonValue::Num(t) && index_val(t@) is Some)
}

/// How a parsed attribute pair relates to its entry.
pub open spec fn attr_entry_of(x: (GltfMeshPrimitiveAttr, usize), e: (String, JsonValue)) -> bool {
    attr_from_name(e.0@) == Some(x.0) && (e.1 matches JsonValue::Num(t) && index_val(t@) == Some(
        x.1 as int,
    ))
}

/// Parse the attribute map of a primitive: each entry is a semantic name
/// bound to an accessor index.
pub fn parse_attr_entries(entries: &Vec<(String, JsonValue)>) -> (r: Result<
    Vec<(GltfMeshPrimitiveAttr, usize)>,
    ParseError,
>)
    ensures
        r is Ok <==> (forall|i: int| 0 <= i < entries@.len() ==> attr_entry_valid(
            #[trigger] entries@[i],
        )),
        r matches Ok(out) ==> out@.len() == entries@.len() && (forall|i: int|
            0 <= i < entries@.len() ==> attr_entry_of(#[trigger] out@[i], entries@[i])),
{
    let mut out: Vec<(GltfMeshPrimitiveAttr, usize)> = Vec::new();
    let mut i: usize = 0;
    while i < entries.len()
        invariant
            i <= entries@.len(),
            out@.len() == i as int,
            forall|k: int| 0 <= k < i ==> attr_entry_valid(#[trigger] entries@[k]),
            forall|k: int| 0 <= k < i ==> attr_entry_of(#[trigger] out@[k], entries@[k]),
        decreases entries@.len() - i,
    {
        let attr = match attr_of_name(&entries[i].0) {
            Some(a) => a,
            None => {
                return Err(ParseError::BadEnum);
            },
        };
        let idx = match &entries[i].1 {
            JsonValue::Num(t) => match parse_index(t.as_str()) {
                Some(n) => n,
                None => {
                    return Err(ParseError::BadNumber);
                },
            },
            _ => {
                return Err(ParseError::WrongType);
            },
        };
        out.push((attr, idx));
        i += 1;
    }
    Ok(out)
}

/// The identity transform, column-major, in fixed-point steps.
pub open spec fn identity16_nano() -> Seq<i64> {
    seq![
        crate::math::fixed::SCALE, 0i64, 0i64, 0i64,
        0i64, crate::math::fixed::SCALE, 0i64, 0i64,
        0i64, 0i64, crate::math::fixed::SCALE, 0i64,
        0i64, 0i64, 0i64, crate::math::fixed::SCALE,
    ]
}

fn identity16_nano_exec() -> (r: Vec<i64>)
    ensures
        r@ == identity16_nano(),
{
    let s = crate::math::fixed::SCALE;
    let r = vec![s, 0, 0, 0, 0, s, 0, 0, 0, 0, s, 0, 0, 0, 0, s];
    proof {
        assert(r@ =~= identity16_nano());
    }
    r
}

/// The identity rotation quaternion (x, y, z, w).
pub open spec fn quat_identity_nano() -> Seq<i64> {
    seq![0i64, 0i64, 0i64, crate::math::fixed::SCALE]
}

fn quat_identity_nano_exec() -> (r: Vec<i64>)
    ensures
        r@ == quat_identity_nano(),
{
    let r = vec![0, 0, 0, crate::math::fixed::SCALE];
    proof {
        assert(r@ =~= quat_identity_nano());
    }
    r
}

/// A unit scale along every axis.
pub open spec fn ones3_nano() -> Seq<i64> {
    seq![crate::math::fixed::SCALE, crate::math::fixed::SCALE, crate::math::fixed::SCALE]
}

fn ones3_nano_exec() -> (r: Vec<i64>)
    ensures
        r@ == ones3_nano(),
{
    let s = crate::math::fixed::SCALE;
    let r = vec![s, s, s];
    proof {
        assert(r@ =~= ones3_nano());
    }
    r
}

/// A zero translation.
pub open spec fn zeros3_nano() -> Seq<i64> {
    seq![0i64, 0i64, 0i64]
}

fn zeros3_nano_exec() -> (r: Vec<i64>)
    ensures
        r@ == zeros3_nano(),
{
    let r = vec![0, 0, 0];
    proof {
        assert(r@ =~= zeros3_nano());
    }
    r
}

/// An all-ones color factor.
pub open spec fn ones4_nano() -> Seq<i64> {
    seq![
        crate::math::fixed::SCALE,
        crate::math::fixed::SCALE,
        crate::math::fixed::SCALE,
        crate::math::fixed::SCALE,
    ]
}

fn ones4_nano_exec() -> (r: Vec<i64>)
    ensures
        r@ == ones4_nano(),
{
    let s = crate::math::fixed::SCALE;
    let r = vec![s, s, s, s];
    proof {
        assert(r@ =~= ones4_nano());
    }
    r
}

/// A list of names.
pub open spec fn string_list_valid(items: Seq<JsonValue>) -> bool {
    forall|i: int| 0 <= i < items.len() ==> (#[trigger] items[i]) matches JsonValue::Str(_)
}

/// How a parsed name list relates to its items.
pub open spec fn string_list_of(out: Seq<String>, items: Seq<JsonValue>) -> bool {
    out.len() == items.len() && (forall|i: int|
        0 <= i < items.len() ==> ((#[trigger] items[i]) matches JsonValue::Str(t) && out[i] == t))
}

/// Parse a list of names.
pub fn parse_string_list(items: &Vec<JsonValue>) -> (r: Result<Vec<String>, ParseError>)
    ensures
        r is Ok <==> string_list_valid(items@),
        r matches Ok(out) ==> string_list_of(out@, items@),
{
    let mut out: Vec<String> = Vec::new();
    let mut i: usize = 0;
    while i < items.len()
        invariant
            i <= items@.len(),
            out@.len() == i as int,
            forall|k: int| 0 <= k < i ==> (#[trigger] items@[k]) matches JsonValue::Str(_),
            forall|k: int|
                0 <= k < i ==> ((#[trigger] items@[k]) matches JsonValue::Str(t) && out@[k]
                    == t),
        decreases items@.len() - i,
    {
        match &items[i] {
            JsonValue::Str(t) => out.push(t.clone()),
            _ => {
                return Err(ParseError::WrongType);
            },
        }
        i += 1;
    }
    Ok(out)
}

/// The parsed scene-description document: ordered sequences of every kind
/// of object, metadata, and the index of the default scene. Arrays absent in
/// the source document are empty.
#[derive(Debug)]
pub struct GltfData {
    pub extensions_used: Vec<String>,
    pub extensions_required: Vec<String>,
    pub accessors: Vec<GltfAccessor>,
    pub asset: GltfAsset,
    pub buffers: Vec<GltfBuffer>,
    pub buffer_views: Vec<GltfBufferView>,
    pub images: Vec<GltfImage>,
    pub materials: Vec<GltfMaterial>,
    pub meshes: Vec<GltfMesh>,
    pub nodes: Vec<GltfNode>,
    pub samplers: Vec<GltfSampler>,
    pub default_scene: Option<usize>,
    pub scenes: Vec<GltfSceneElement>,
    pub textures: Vec<GltfTexture>,
}

/// The value parses as a whole document.
pub open spec fn document_valid(v: JsonValue) -> bool {
    match v {
        JsonValue::Obj(f) => {
            &&& (match lookup_spec(f@, "extensionsUsed"@) {
            None => true,
            Some(JsonValue::Arr(items)) => string_list_valid(items@),
            Some(_) => false,
        })
            &&& (match lookup_spec(f@, "extensionsRequired"@) {
            None => true,
            Some(JsonValue::Arr(items)) => string_list_valid(items@),
            Some(_) => false,
        })
            &&& (match lookup_spec(f@, "accessors"@) {
            None => true,
            Some(JsonValue::Arr(items)) => forall|i: int| 0 <= i < items@.len() ==> accessor_valid(#[trigger] items@[i]),
            Some(_) => false,
        })
            &&& (match lookup_spec(f@, "buffers"@) {
            None => true,
            Some(JsonValue::Arr(items)) => forall|i: int| 0 <= i < items@.len() ==> buffer_valid(#[trigger] items@[i]),
            Some(_) => false,
        })
            &&& (match lookup_spec(f@, "bufferViews"@) {
            None => true,
            Some(JsonValue::Arr(items)) => forall|i: int| 0 <= i < items@.len() ==> buffer_view_valid(#[trigger] items@[i]),
            Some(_) => false,
        })
            &&& (match lookup_spec(f@, "images"@) {
            None => true,
            Some(JsonValue::Arr(items)) => forall|i: int| 0 <= i < items@.len() ==> image_valid(#[trigger] items@[i]),
            Some(_) => false,
        })
            &&& (match lookup_spec(f@, "materials"@) {
            None => true,
            Some(JsonValue::Arr(items)) => forall|i: int| 0 <= i < items@.len() ==> material_valid(#[trigger] items@[i]),
            Some(_) => false,
        })
            &&& (match lookup_spec(f@, "meshes"@) {
            None => true,
            Some(JsonValue::Arr(items)) => forall|i: int| 0 <= i < items@.len() ==> mesh_valid(#[trigger] items@[i]),
            Some(_) => false,
        })
            &&& (match lookup_spec(f@, "nodes"@) {
            None => true,
            Some(JsonValue::Arr(items)) => forall|i: int| 0 <= i < items@.len() ==> node_valid(#[trigger] items@[i]),
            Some(_) => false,
        })
            &&& (match lookup_spec(f@, "samplers"@) {
            None => true,
            Some(JsonValue::Arr(items)) => forall|i: int| 0 <= i < items@.len() ==> sampler_valid(#[trigger] items@[i]),
            Some(_) => false,
        })
            &&& (match lookup_spec(f@, "scenes"@) {
            None => true,
            Some(JsonValue::Arr(items)) => forall|i: int| 0 <= i < items@.len() ==> scene_element_valid(#[trigger] items@[i]),
            Some(_) => false,
        })
            &&& (match lookup_spec(f@, "textures"@) {
            None => true,
            Some(JsonValue::Arr(items)) => forall|i: int| 0 <= i < items@.len() ==> texture_valid(#[trigger] items@[i]),
            Some(_) => false,
        })
            &&& (match lookup_spec(f@, "asset"@) {
                Some(o) => asset_valid(o),
                None => false,
            })
            &&& (opt_index_spec(f@, "scene"@, Some(0)) is Ok)
        },
        _ => false,
    }
}

/// How a parsed document relates to the value it was read from.
pub open spec fn document_of(x: GltfData, v: JsonValue) -> bool {
    match v {
        JsonValue::Obj(f) => {
            &&& (match lookup_spec(f@, "extensionsUsed"@) {
            None => x.extensions_used@.len() == 0,
            Some(JsonValue::Arr(items)) => string_list_of(x.extensions_used@, items@),
            Some(_) => false,
        })
            &&& (match lookup_spec(f@, "extensionsRequired"@) {
            None => x.extensions_required@.len() == 0,
            Some(JsonValue::Arr(items)) => string_list_of(x.extensions_required@, items@),
            Some(_) => false,
        })
            &&& (match lookup_spec(f@, "accessors"@) {
            None => x.accessors@.len() == 0,
            Some(JsonValue::Arr(items)) => x.accessors@.len() == items@.len() && (forall|i: int|
                0 <= i < items@.len() ==> accessor_of(#[trigger] x.accessors@[i], items@[i])),
            Some(_) => false,
        })
            &&& (match lookup_spec(f@, "buffers"@) {
            None => x.buffers@.len() == 0,
            Some(JsonValue::Arr(items)) => x.buffers@.len() == items@.len() && (forall|i: int|
                0 <= i < items@.len() ==> buffer_of(#[trigger] x.buffers@[i], items@[i])),
            Some(_) => false,
        })
            &&& (match lookup_spec(f@, "bufferViews"@) {
            None => x.buffer_views@.len() == 0,
            Some(JsonValue::Arr(items)) => x.buffer_views@.len() == items@.len() && (forall|i: int|
                0 <= i < items@.len() ==> buffer_view_of(#[trigger] x.buffer_views@[i], items@[i])),
            Some(_) => false,
        })
            &&& (match lookup_spec(f@, "images"@) {
            None => x.images@.len() == 0,
            Some(JsonValue::Arr(items)) => x.images@.len() == items@.len() && (forall|i: int|
                0 <= i < items@.len() ==> image_of(#[trigger] x.images@[i], items@[i])),
            Some(_) => false,
        })
            &&& (match lookup_spec(f@, "materials"@) {
            None => x.materials@.len() == 0,
            Some(JsonValue::Arr(items)) => x.materials@.len() == items@.len() && (forall|i: int|
                0 <= i < items@.len() ==> material_of(#[trigger] x.materials@[i], items@[i])),
            Some(_) => false,
        })
            &&& (match lookup_spec(f@, "meshes"@) {
            None => x.meshes@.len() == 0,
            Some(JsonValue::Arr(items)) => x.meshes@.len() == items@.len() && (forall|i: int|
                0 <= i < items@.len() ==> mesh_of(#[trigger] x.meshes@[i], items@[i])),
            Some(_) => false,
        })
            &&& (match lookup_spec(f@, "nodes"@) {
            None => x.nodes@.len() == 0,
            Some(JsonValue::Arr(items)) => x.nodes@.len() == items@.len() && (forall|i: int|
                0 <= i < items@.len() ==> node_of(#[trigger] x.nodes@[i], items@[i])),
            Some(_) => false,
        })
            &&& (match lookup_spec(f@, "samplers"@) {
            None => x.samplers@.len() == 0,
            Some(JsonValue::Arr(items)) => x.samplers@.len() == items@.len() && (forall|i: int|
                0 <= i < items@.len() ==> sampler_of(#[trigger] x.samplers@[i], items@[i])),
            Some(_) => false,
        })
            &&& (match lookup_spec(f@, "scenes"@) {
            None => x.scenes@.len() == 0,
            Some(JsonValue::Arr(items)) => x.scenes@.len() == items@.len() && (forall|i: int|
                0 <= i < items@.len() ==> scene_element_of(#[trigger] x.scenes@[i], items@[i])),
            Some(_) => false,
        })
            &&& (match lookup_spec(f@, "textures"@) {
            None => x.textures@.len() == 0,
            Some(JsonValue::Arr(items)) => x.textures@.len() == items@.len() && (forall|i: int|
                0 <= i < items@.len() ==> texture_of(#[trigger] x.textures@[i], items@[i])),
            Some(_) => false,
        })
            &&& (match lookup_spec(f@, "asset"@) {
                Some(o) => asset_of(x.asset, o),
                None => false,
            })
            &&& (opt_index_spec(f@, "scene"@, Some(0)) == Ok::<Option<usize>, ParseError>(x.default_scene))
        },
        _ => false,
    }
}

/// Parse a whole document from a value: every absent array is empty, the
/// metadata object is required, and the default scene index defaults to the
/// first scene.
#[verifier::rlimit(100)]
#[verifier::spinoff_prover]
pub fn parse_document(v: &JsonValue) -> (r: Result<GltfData, ParseError>)
    ensures
        r is Ok <==> document_valid(*v),
        r matches Ok(x) ==> document_of(x, *v),
{
    let fields = match v {
        JsonValue::Obj(f) => f,
        _ => {
            return Err(ParseError::NotAnObject);
        },
    };
    let extensions_used = match get_field(fields, "extensionsUsed") {
        None => Vec::new(),
        Some(JsonValue::Arr(items)) => match parse_string_list(items) {
            Ok(x) => x,
            Err(e) => {
                return Err(e);
            },
        },
        Some(_) => {
            return Err(ParseError::WrongType);
        },
    };
    let extensions_required = match get_field(fields, "extensionsRequired") {
        None => Vec::new(),
        Some(JsonValue::Arr(items)) => match parse_string_list(items) {
            Ok(x) => x,
            Err(e) => {
                return Err(e);
            },
        },
        Some(_) => {
            return Err(ParseError::WrongType);
        },
    };
    let accessors = match get_field(fields, "accessors") {
        None => Vec::new(),
        Some(JsonValue::Arr(items)) => match parse_accessor_list(items) {
            Ok(x) => x,
            Err(e) => {
                return Err(e);
            },
        },
        Some(_) => {
            return Err(ParseError::WrongType);
        },
    };
    let buffers = match get_field(fields, "buffers") {
        None => Vec::new(),
        Some(JsonValue::Arr(items)) => match parse_buffer_list(items) {
            Ok(x) => x,
            Err(e) => {
                return Err(e);
            },
        },
        Some(_) => {
            return Err(ParseError::WrongType);
        },
    };
    let buffer_views = match get_field(fields, "bufferViews") {
        None => Vec::new(),
        Some(JsonValue::Arr(items)) => match parse_buffer_view_list(items) {
            Ok(x) => x,
            Err(e) => {
                return Err(e);
            },
        },
        Some(_) => {
            return Err(ParseError::WrongType);
        },
    };
    let images = match get_field(fields, "images") {
        None => Vec::new(),
        Some(JsonValue::Arr(items)) => match parse_image_list(items) {
            Ok(x) => x,
            Err(e) => {
                return Err(e);
            },
        },
        Some(_) => {
            return Err(ParseError::WrongType);
        },
    };
    let materials = match get_field(fields, "materials") {
        None => Vec::new(),
        Some(JsonValue::Arr(items)) => match parse_material_list(items) {
            Ok(x) => x,
            Err(e) => {
                return Err(e);
            },
        },
        Some(_) => {
            return Err(ParseError::WrongType);
        },
    };
    let meshes = match get_field(fields, "meshes") {
        None => Vec::new(),
        Some(JsonValue::Arr(items)) => match parse_mesh_list(items) {
            Ok(x) => x,
            Err(e) => {
                return Err(e);
            },
        },
        Some(_) => {
            return Err(ParseError::WrongType);
        },
    };
    let nodes = match get_field(fields, "nodes") {
        None => Vec::new(),
        Some(JsonValue::Arr(items)) => match parse_node_list(items) {
            Ok(x) => x,
            Err(e) => {
                return Err(e);
            },
        },
        Some(_) => {
            return Err(ParseError::WrongType);
        },
    };
    let samplers = match get_field(fields, "samplers") {
        None => Vec::new(),
        Some(JsonValue::Arr(items)) => match parse_sampler_list(items) {
            Ok(x) => x,
            Err(e) => {
                return Err(e);
            },
        },
        Some(_) => {
            return Err(ParseError::WrongType);
        },
    };
    let scenes = match get_field(fields, "scenes") {
        None => Vec::new(),
        Some(JsonValue::Arr(items)) => match parse_scene_element_list(items) {
            Ok(x) => x,
            Err(e) => {
                return Err(e);
            },
        },
        Some(_) => {
            return Err(ParseError::WrongType);
        },
    };
    let textures = match get_field(fields, "textures") {
        None => Vec::new(),
        Some(JsonValue::Arr(items)) => match parse_texture_list(items) {
            Ok(x) => x,
            Err(e) => {
                return Err(e);
            },
        },
        Some(_) => {
            return Err(ParseError::WrongType);
        },
    };
    let asset = match get_field(fields, "asset") {
        Some(o) => match parse_asset(o) {
            Ok(a) => a,
            Err(e) => {
                return Err(e);
            },
        },
        None => {
            return Err(ParseError::MissingField);
        },
    };
    let default_scene = match opt_index(fields, "scene", Some(0)) {
        Ok(x) => x,
        Err(e) => {
            return Err(e);
        },
    };
    Ok(GltfData {
        extensions_used,
        extensions_required,
        accessors,
        asset,
        buffers,
        buffer_views,
        images,
        materials,
        meshes,
        nodes,
        samplers,
        default_scene,
        scenes,
        textures,
    })
}

/// Every index reference of the document points inside its target sequence:
/// the default scene into the scenes (when any scene exists at all),
/// scene roots and node children into the nodes, node meshes into the
/// meshes, primitive attributes and indices into the accessors, primitive
/// materials into the materials, accessor buffer views into the buffer
/// views, and buffer views into the buffers.
pub open spec fn doc_indices_ok(doc: GltfData) -> bool {
    &&& (doc.default_scene matches Some(s) ==> doc.scenes@.len() == 0 || s
        < doc.scenes@.len())
    &&& (forall|i: int, j: int|
        0 <= i < doc.scenes@.len() && 0 <= j < (#[trigger] doc.scenes@[i]).nodes@.len()
            ==> #[trigger] doc.scenes@[i].nodes@[j] < doc.nodes@.len())
    &&& (forall|i: int, j: int|
        0 <= i < doc.nodes@.len() && 0 <= j < (#[trigger] doc.nodes@[i]).children@.len()
            ==> #[trigger] doc.nodes@[i].children@[j] < doc.nodes@.len())
    &&& (forall|i: int|
        0 <= i < doc.nodes@.len() ==> ((#[trigger] doc.nodes@[i]).mesh matches Some(m) ==> m
            < doc.meshes@.len()))
    &&& (forall|i: int, j: int|
        0 <= i < doc.meshes@.len() && 0 <= j < (#[trigger] doc.meshes@[i]).primitives@.len()
            ==> prim_indices_ok(#[trigger] doc.meshes@[i].primitives@[j], doc))
    &&& (forall|i: int|
        0 <= i < doc.accessors@.len() ==> ((#[trigger] doc.accessors@[i]).buffer_view matches Some(
            b,
        ) ==> b < doc.buffer_views@.len()))
    &&& (forall|i: int|
        0 <= i < doc.buffer_views@.len() ==> (#[trigger] doc.buffer_views@[i]).buffer
            < doc.buffers@.len())
}

/// The index references of one primitive point inside their targets.
pub open spec fn prim_indices_ok(p: GltfMeshPrimitive, doc: GltfData) -> bool {
    &&& (p.indices matches Some(x) ==> x < doc.accessors@.len())
    &&& (p.material matches Some(m) ==> m < doc.materials@.len())
    &&& (forall|k: int|
        0 <= k < p.attributes@.len() ==> (#[trigger] p.attributes@[k]).1 < doc.accessors@.len())
}

/// Check every index reference of a document.
pub fn validate_document(doc: &GltfData) -> (r: bool)
    ensures
        r == doc_indices_ok(*doc),
{
    match doc.default_scene {
        Some(s) => {
            if doc.scenes.len() > 0 && s >= doc.scenes.len() {
                return false;
            }
        },
        None => {},
    }
    let mut i: usize = 0;
    while i < doc.scenes.len()
        invariant
            i <= doc.scenes@.len(),
            forall|a: int, j: int|
                0 <= a < i && 0 <= j < (#[trigger] doc.scenes@[a]).nodes@.len()
                    ==> #[trigger] doc.scenes@[a].nodes@[j] < doc.nodes@.len(),
        decreases doc.scenes@.len() - i,
    {
        let mut j: usize = 0;
        while j < doc.scenes[i].nodes.len()
            invariant
                i < doc.scenes@.len(),
                j <= doc.scenes@[i as int].nodes@.len(),
                forall|k: int|
                    0 <= k < j ==> #[trigger] doc.scenes@[i as int].nodes@[k] < doc.nodes@.len(),
            decreases doc.scenes@[i as int].nodes@.len() - j,
        {
            if doc.scenes[i].nodes[j] >= doc.nodes.len() {
                return false;
            }
            j += 1;
        }
        i += 1;
    }
    let mut i: usize = 0;
    while i < doc.nodes.len()
        invariant
            i <= doc.nodes@.len(),
            forall|a: int, j: int|
                0 <= a < i && 0 <= j < (#[trigger] doc.nodes@[a]).children@.len()
                    ==> #[trigger] doc.nodes@[a].children@[j] < doc.nodes@.len(),
            forall|a: int|
                0 <= a < i ==> ((#[trigger] doc.nodes@[a]).mesh matches Some(m) ==> m
                    < doc.meshes@.len()),
        decreases doc.nodes@.len() - i,
    {
        let mut j: usize = 0;
        while j < doc.nodes[i].children.len()
            invariant
                i < doc.nodes@.len(),
                j <= doc.nodes@[i as int].children@.len(),
                forall|k: int|
                    0 <= k < j ==> #[trigger] doc.nodes@[i as int].children@[k]
                        < doc.nodes@.len(),
            decreases doc.nodes@[i as int].children@.len() - j,
        {
            if doc.nodes[i].children[j] >= doc.nodes.len() {
                return false;
            }
            j += 1;
        }
        match doc.nodes[i].mesh {
            Some(m) => {
                if m >= doc.meshes.len() {
                    return false;
                }
            },
            None => {},
        }
        i += 1;
    }
    let mut i: usize = 0;
    while i < doc.meshes.len()
        invariant
            i <= doc.meshes@.len(),
            forall|a: int, j: int|
                0 <= a < i && 0 <= j < (#[trigger] doc.meshes@[a]).primitives@.len()
                    ==> prim_indices_ok(#[trigger] doc.meshes@[a].primitives@[j], *doc),
        decreases doc.meshes@.len() - i,
    {
        let mut j: usize = 0;
        while j < doc.meshes[i].primitives.len()
            invariant
                i < doc.meshes@.len(),
                j <= doc.meshes@[i as int].primitives@.len(),
                forall|k: int|
                    0 <= k < j ==> prim_indices_ok(
                        #[trigger] doc.meshes@[i as int].primitives@[k],
                        *doc,
                    ),
            decreases doc.meshes@[i as int].primitives@.len() - j,
        {
            let p = &doc.meshes[i].primitives[j];
            match p.indices {
                Some(x) => {
                    if x >= doc.accessors.len() {
                        return false;
                    }
                },
                None => {},
            }
            match p.material {
                Some(m) => {
                    if m >= doc.materials.len() {
                        return false;
                    }
                },
                None => {},
            }
            let mut k: usize = 0;
            while k < p.attributes.len()
                invariant
                    i < doc.meshes@.len(),
                    j < doc.meshes@[i as int].primitives@.len(),
                    *p == doc.meshes@[i as int].primitives@[j as int],
                    forall|a: int|
                        0 <= a < k ==> (#[trigger] p.attributes@[a]).1 < doc.accessors@.len(),
                    k <= p.attributes@.len(),
                decreases p.attributes@.len() - k,
            {
                if p.attributes[k].1 >= doc.accessors.len() {
                    proof {
                        assert(!prim_indices_ok(
                            doc.meshes@[i as int].primitives@[j as int],
                            *doc,
                        ));
                    }
                    return false;
                }
                k += 1;
            }
            j += 1;
        }
        i += 1;
    }
    let mut i: usize = 0;
    while i < doc.accessors.len()
        invariant
            i <= doc.accessors@.len(),
            forall|a: int|
                0 <= a < i ==> ((#[trigger] doc.accessors@[a]).buffer_view matches Some(b) ==> b
                    < doc.buffer_views@.len()),
        decreases doc.accessors@.len() - i,
    {
        match doc.accessors[i].buffer_view {
            Some(b) => {
                if b >= doc.buffer_views.len() {
                    return false;
                }
            },
            None => {},
        }
        i += 1;
    }
    let mut i: usize = 0;
    while i < doc.buffer_views.len()
        invariant
            i <= doc.buffer_views@.len(),
            forall|a: int|
                0 <= a < i ==> (#[trigger] doc.buffer_views@[a]).buffer < doc.buffers@.len(),
        decreases doc.buffer_views@.len() - i,
    {
        if doc.buffer_views[i].buffer >= doc.buffers.len() {
            return false;
        }
        i += 1;
    }
    true
}

/// Load a document from its text: parse the text, read the schema off it,
/// and reject any out-of-bounds index reference, as a load-time error.
/// Success is owed exactly when the text is a well-formed document that the
/// schema accepts and whose index references are in bounds.
pub fn load_document(text: &str) -> (r: Result<GltfData, ParseError>)
    ensures
        crate::json::json_of(text@) is None ==> r == Err::<GltfData, ParseError>(
            ParseError::InvalidText,
        ),
        crate::json::json_of(text@) matches Some(v) ==> {
            &&& (r matches Ok(doc) ==> document_valid(v) && document_of(doc, v) && doc_indices_ok(
                doc,
            ))
            &&& (!document_valid(v) ==> r is Err && !(r is Ok))
            &&& (document_valid(v) ==> r is Ok || r == Err::<GltfData, ParseError>(
                ParseError::BadIndex,
            ))
            &&& (document_valid(v) && r == Err::<GltfData, ParseError>(ParseError::BadIndex)
                ==> exists|d: GltfData| document_of(d, v) && !doc_indices_ok(d))
        },
        r matches Ok(doc) ==> doc_indices_ok(doc),
{
    let v = match crate::json::parse_text(text) {
        Some(v) => v,
        None => {
            return Err(ParseError::InvalidText);
        },
    };
    let doc = match parse_document(&v) {
        Ok(d) => d,
        Err(e) => {
            return Err(e);
        },
    };
    if !validate_document(&doc) {
        proof {
            assert(exists|d: GltfData|
                document_of(d, crate::json::json_of(text@)->Some_0) && !doc_indices_ok(d)) by {
                assert(document_of(doc, crate::json::json_of(text@)->Some_0)
                    && !doc_indices_ok(doc));
            }
        }
        return Err(ParseError::BadIndex);
    }
    Ok(doc)
}

} // verus!
