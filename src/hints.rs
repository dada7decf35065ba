use vstd::prelude::*;
use crate::notification::{Action, ImageData};

verus! {

/// One value of the protocol's hint dictionary, as far as the decoder reads
/// it. A value of any other protocol type is `Other`.
#[derive(Debug, Clone, PartialEq, Eq)]
pub enum HintValue {
    Str(String),
    U8(u8),
    Bool(bool),
    I32(i32),
    U32(u32),
    Image {
        width: i32,
        height: i32,
        rowstride: i32,
        has_alpha: bool,
        bits_per_sample: i32,
        channels: i32,
        data: Vec<u8>,
    },
    Other,
}

/// One entry of the hint dictionary: its key, its value, and a printable
/// rendering of the value for the debug snapshot.
#[derive(Debug, Clone, PartialEq, Eq)]
pub struct Hint {
    pub key: String,
    pub value: HintValue,
    pub text: String,
}

/// The value of the first hint named `key`, looking from position `i` on.
pub open spec fn hint_from(hints: Seq<Hint>, key: Seq<char>, i: int) -> Option<HintValue>
    decreases hints.len() - i,
{
    if i < 0 || i >= hints.len() {
        None
    } else if hints[i].key@ == key {
        Some(hints[i].value)
    } else {
        hint_from(hints, key, i + 1)
    }
}

/// The value of the hint named `key`.
pub open spec fn hint(hints: Seq<Hint>, key: Seq<char>) -> Option<HintValue> {
    hint_from(hints, key, 0)
}

pub open spec fn hint_text(hints: Seq<Hint>, key: Seq<char>) -> Option<Seq<char>> {
    match hint(hints, key) {
        Some(HintValue::Str(s)) => Some(s@),
        _ => None,
    }
}

pub open spec fn hint_u8(hints: Seq<Hint>, key: Seq<char>) -> Option<u8> {
    match hint(hints, key) {
        Some(HintValue::U8(n)) => Some(n),
        _ => None,
    }
}

pub open spec fn hint_bool(hints: Seq<Hint>, key: Seq<char>) -> Option<bool> {
    match hint(hints, key) {
        Some(HintValue::Bool(b)) => Some(b),
        _ => None,
    }
}

/// A signed hint; an unsigned one is reinterpreted bit for bit.
pub open spec fn hint_i32(hints: Seq<Hint>, key: Seq<char>) -> Option<i32> {
    match hint(hints, key) {
        Some(HintValue::I32(n)) => Some(n),
        Some(HintValue::U32(n)) => Some(n as i32),
        _ => None,
    }
}

pub open spec fn text_view(o: Option<String>) -> Option<Seq<char>> {
    match o {
        Some(s) => Some(s@),
        None => None,
    }
}

fn find_hint<'a>(hints: &'a Vec<Hint>, key: &str) -> (r: Option<&'a HintValue>)
    ensures
        match r {
            Some(v) => hint(hints@, key@) == Some(*v),
            None => hint(hints@, key@) is None,
        },
{
    let k = String::from_str(key);
    let mut i: usize = 0;
    while i < hints.len()
        invariant
            i <= hints@.len(),
            k@ == key@,
            hint(hints@, key@) == hint_from(hints@, key@, i as int),
        decreases hints@.len() - i,
    {
        if hints[i].key == k {
            return Some(&hints[i].value);
        }
        i = i + 1;
    }
    None
}

/// A string hint; absent or of another type, none.
pub fn get_hint_string(hints: &Vec<Hint>, key: &str) -> (r: Option<String>)
    ensures
        text_view(r) == hint_text(hints@, key@),
{
    match find_hint(hints, key) {
        Some(HintValue::Str(s)) => Some(s.clone()),
        _ => None,
    }
}

/// A byte hint; absent or of another type, none.
pub fn get_hint_u8(hints: &Vec<Hint>, key: &str) -> (r: Option<u8>)
    ensures
        r == hint_u8(hints@, key@),
{
    match find_hint(hints, key) {
        Some(HintValue::U8(n)) => Some(*n),
        _ => None,
    }
}

/// A boolean hint; absent or of another type, none.
pub fn get_hint_bool(hints: &Vec<Hint>, key: &str) -> (r: Option<bool>)
    ensures
        r == hint_bool(hints@, key@),
{
    match find_hint(hints, key) {
        Some(HintValue::Bool(b)) => Some(*b),
        _ => None,
    }
}

/// A 32-bit integer hint, signed or unsigned; absent or of another type,
/// none.
pub fn get_hint_i32(hints: &Vec<Hint>, key: &str) -> (r: Option<i32>)
    ensures
        r == hint_i32(hints@, key@),
{
    match find_hint(hints, key) {
        Some(HintValue::I32(n)) => Some(*n),
        Some(HintValue::U32(n)) => Some(*n as i32),
        _ => None,
    }
}

/// The action at position `i` of a flat key/label list.
pub open spec fn action_matches(a: Action, raw: Seq<String>, i: int) -> bool {
    a.key@ == raw[2 * i]@ && a.label@ == raw[2 * i + 1]@
}

/// The actions of a flat alternating list of keys and labels, taken two at a
/// time; a trailing unpaired element is dropped.
pub fn parse_actions(raw: &Vec<String>) -> (r: Vec<Action>)
    ensures
        r@.len() == raw@.len() / 2,
        forall|i: int| 0 <= i < r@.len() ==> action_matches(#[trigger] r@[i], raw@, i),
{
    let mut out: Vec<Action> = Vec::new();
    let len = raw.len();
    let n = len / 2;
    let mut i: usize = 0;
    while i < n
        invariant
            len == raw@.len(),
            n == raw@.len() / 2,
            i <= n,
            out@.len() == i,
            forall|k: int| 0 <= k < i ==> action_matches(#[trigger] out@[k], raw@, k),
        decreases n - i,
    {
        assert(2 * i + 1 < raw@.len()) by (nonlinear_arith)
            requires
                i < n,
                n == raw@.len() / 2,
        ;
        let key = raw[2 * i].clone();
        let label = raw[2 * i + 1].clone();
        out.push(Action { key, label });
        i = i + 1;
    }
    out
}

/// The mathematical content of an image.
pub enum ImageModel {
    Raw {
        width: i32,
        height: i32,
        rowstride: i32,
        has_alpha: bool,
        bits_per_sample: i32,
        channels: i32,
        data: Seq<u8>,
    },
    Path(Seq<char>),
    Name(Seq<char>),
    Empty,
}

impl View for ImageData {
    type V = ImageModel;

    open spec fn view(&self) -> ImageModel {
        match self {
            ImageData::Raw { width, height, rowstride, has_alpha, bits_per_sample, channels, data } => {
                ImageModel::Raw {
                    width: *width,
                    height: *height,
                    rowstride: *rowstride,
                    has_alpha: *has_alpha,
                    bits_per_sample: *bits_per_sample,
                    channels: *channels,
                    data: data@,
                }
            },
            ImageData::Path(p) => ImageModel::Path(p@),
            ImageData::Name(n) => ImageModel::Name(n@),
            ImageData::Empty => ImageModel::Empty,
        }
    }
}

pub open spec fn is_prefix(p: Seq<char>, s: Seq<char>) -> bool {
    p.len() <= s.len() && s.subrange(0, p.len() as int) == p
}

/// A reference that starts with `/` or `file://` is a file path; any other
/// is the name of a themed icon.
pub open spec fn classify(s: Seq<char>) -> ImageModel {
    if is_prefix("/"@, s) || is_prefix("file://"@, s) {
        ImageModel::Path(s)
    } else {
        ImageModel::Name(s)
    }
}

/// The raw pixel image under `key`, if that hint holds one.
pub open spec fn raw_image(hints: Seq<Hint>, key: Seq<char>) -> Option<ImageModel> {
    match hint(hints, key) {
        Some(HintValue::Image { width, height, rowstride, has_alpha, bits_per_sample, channels, data }) => {
            Some(ImageModel::Raw { width, height, rowstride, has_alpha, bits_per_sample, channels, data: data@ })
        },
        _ => None,
    }
}

/// A non-empty path-like hint under `key`.
pub open spec fn path_hint(hints: Seq<Hint>, key: Seq<char>) -> Option<Seq<char>> {
    match hint_text(hints, key) {
        Some(p) => if p.len() > 0 { Some(p) } else { None },
        None => None,
    }
}

/// The image of a notification, first match winning: raw pixels under
/// `image-data`, `image_data` or `icon_data`; a non-empty `image-path` or
/// `image_path` hint; a non-empty application icon; else none.
pub open spec fn image_of(hints: Seq<Hint>, app_icon: Seq<char>) -> ImageModel {
    if raw_image(hints, "image-data"@) is Some {
        raw_image(hints, "image-data"@)->0
    } else if raw_image(hints, "image_data"@) is Some {
        raw_image(hints, "image_data"@)->0
    } else if raw_image(hints, "icon_data"@) is Some {
        raw_image(hints, "icon_data"@)->0
    } else if path_hint(hints, "image-path"@) is Some {
        classify(path_hint(hints, "image-path"@)->0)
    } else if path_hint(hints, "image_path"@) is Some {
        classify(path_hint(hints, "image_path"@)->0)
    } else if app_icon.len() > 0 {
        classify(app_icon)
    } else {
        ImageModel::Empty
    }
}

fn has_prefix(s: &str, prefix: &str) -> (r: bool)
    ensures
        r == is_prefix(prefix@, s@),
{
    let plen = prefix.unicode_len();
    let slen = s.unicode_len();
    if plen > slen {
        return false;
    }
    let mut i: usize = 0;
    while i < plen
        invariant
            plen == prefix@.len(),
            slen == s@.len(),
            plen <= slen,
            i <= plen,
            forall|k: int| 0 <= k < i ==> s@[k] == prefix@[k],
        decreases plen - i,
    {
        if s.get_char(i) != prefix.get_char(i) {
            assert(s@.subrange(0, plen as int)[i as int] != prefix@[i as int]);
            return false;
        }
        i = i + 1;
    }
    assert(s@.subrange(0, plen as int) =~= prefix@);
    true
}

fn classify_reference(s: &String) -> (r: ImageData)
    ensures
        r@ == classify(s@),
{
    if has_prefix(s.as_str(), "/") || has_prefix(s.as_str(), "file://") {
        ImageData::Path(s.clone())
    } else {
        ImageData::Name(s.clone())
    }
}

fn copy_bytes(v: &Vec<u8>) -> (r: Vec<u8>)
    ensures
        r@ == v@,
{
    let mut out: Vec<u8> = Vec::new();
    let mut i: usize = 0;
    while i < v.len()
        invariant
            i <= v@.len(),
            out@ == v@.subrange(0, i as int),
        decreases v@.len() - i,
    {
        out.push(v[i]);
        i = i + 1;
    }
    assert(out@ =~= v@);
    out
}

/// The raw pixel image under `key`, if that hint holds one.
fn parse_raw_image(hints: &Vec<Hint>, key: &str) -> (r: Option<ImageData>)
    ensures
        match r {
            Some(img) => raw_image(hints@, key@) == Some(img@),
            None => raw_image(hints@, key@) is None,
        },
{
    match find_hint(hints, key) {
        Some(HintValue::Image { width, height, rowstride, has_alpha, bits_per_sample, channels, data }) => {
            Some(ImageData::Raw {
                width: *width,
                height: *height,
                rowstride: *rowstride,
                has_alpha: *has_alpha,
                bits_per_sample: *bits_per_sample,
                channels: *channels,
                data: copy_bytes(data),
            })
        },
        _ => None,
    }
}

fn parse_path_hint(hints: &Vec<Hint>, key: &str) -> (r: Option<String>)
    ensures
        text_view(r) == path_hint(hints@, key@),
{
    match get_hint_string(hints, key) {
        Some(p) => if p.as_str().is_empty() {
            None
        } else {
            Some(p)
        },
        None => None,
    }
}

/// The image of a notification by the precedence of `image_of`.
pub fn parse_image(hints: &Vec<Hint>, app_icon: &String) -> (r: ImageData)
    ensures
        r@ == image_of(hints@, app_icon@),
{
    if let Some(img) = parse_raw_image(hints, "image-data") {
        return img;
    }
    if let Some(img) = parse_raw_image(hints, "image_data") {
        return img;
    }
    if let Some(img) = parse_raw_image(hints, "icon_data") {
        return img;
    }
    if let Some(p) = parse_path_hint(hints, "image-path") {
        return classify_reference(&p);
    }
    if let Some(p) = parse_path_hint(hints, "image_path") {
        return classify_reference(&p);
    }
    if !app_icon.as_str().is_empty() {
        return classify_reference(app_icon);
    }
    ImageData::Empty
}


/// Raw pixels win: a payload with a raw `image-data` hint resolves to that
/// image, whatever path hint or application icon it carries besides.
pub proof fn lemma_raw_image_first(hints: Seq<Hint>, app_icon: Seq<char>)
    requires
        raw_image(hints, "image-data"@) is Some,
    ensures
        image_of(hints, app_icon) == raw_image(hints, "image-data"@)->0,
        image_of(hints, app_icon) is Raw,
{
}

} // verus!
