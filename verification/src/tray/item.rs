//! Status notifier item identity and the metadata read from an item's properties.
use crate::text::{chars_of, concat_chars, string_of};
use crate::variant::{children, dict_get, get_bool, get_i32, get_string, get_u32, lookup, value_string, Value};
use vstd::prelude::*;

verus! {

/// An item is its resolved unique bus owner plus object path.
#[derive(Clone, Debug, PartialEq, Eq)]
pub struct ItemKey {
    pub owner: String,
    pub path: String,
}

impl ItemKey {
    /// Unambiguous identifier used by the watcher's public item inventory.
    pub fn registration(&self) -> (r: String)
        ensures
            r@ == self.owner@ + self.path@,
    {
        let o = chars_of(self.owner.as_str());
        let p = chars_of(self.path.as_str());
        let joined = concat_chars(o.as_slice(), p.as_slice());
        string_of(joined.as_slice())
    }
}

/// Pixels in RGBA order, four bytes per pixel, row by row.
#[derive(Clone, Debug)]
pub struct RgbaImage {
    pub width: u32,
    pub height: u32,
    pub pixels: Vec<u8>,
}

/// The meaning of an [`RgbaImage`].
pub struct RgbaImageView {
    pub width: u32,
    pub height: u32,
    pub pixels: Seq<u8>,
}

pub open spec fn image_view(o: Option<RgbaImage>) -> Option<RgbaImageView> {
    match o {
        Some(i) => Some(RgbaImageView { width: i.width, height: i.height, pixels: i.pixels@ }),
        None => None,
    }
}

/// ARGB pixels reordered to RGBA: each four-byte group rotates left by one.
pub open spec fn argb_to_rgba(px: Seq<u8>) -> Seq<u8>
    decreases px.len(),
{
    if px.len() < 4 {
        Seq::empty()
    } else {
        let n = px.len() - 4;
        argb_to_rgba(px.take(n)) + seq![px[n + 1], px[n + 2], px[n + 3], px[n]]
    }
}

/// One advertised pixmap: positive dimensions whose ARGB storage has exactly the pixels.
pub open spec fn convert_pixmap(w: i32, h: i32, px: Seq<u8>) -> Option<RgbaImageView> {
    if w > 0 && h > 0 && w * h * 4 <= usize::MAX && px.len() == w * h * 4 {
        Some(RgbaImageView { width: w as u32, height: h as u32, pixels: argb_to_rgba(px) })
    } else {
        None
    }
}

/// The largest valid pixmap; among equal sizes, the first.
pub open spec fn pick_pixmap(values: Seq<(i32, i32, Seq<u8>)>) -> Option<RgbaImageView>
    decreases values.len(),
{
    if values.len() == 0 {
        None
    } else {
        let prev = pick_pixmap(values.drop_last());
        let last = values.last();
        match convert_pixmap(last.0, last.1, last.2) {
            None => prev,
            Some(img) => match prev {
                None => Some(img),
                Some(p) => if img.pixels.len() > p.pixels.len() {
                    Some(img)
                } else {
                    Some(p)
                },
            },
        }
    }
}

pub open spec fn pixmap_values_view(values: Seq<(i32, i32, Vec<u8>)>) -> Seq<(i32, i32, Seq<u8>)> {
    values.map_values(|e: (i32, i32, Vec<u8>)| (e.0, e.1, e.2@))
}

/// Reorders ARGB storage whose length is a multiple of four.
fn rotate_pixels(px: &Vec<u8>) -> (r: Vec<u8>)
    requires
        px.len() % 4 == 0,
    ensures
        r@ == argb_to_rgba(px@),
{
    let mut r: Vec<u8> = Vec::new();
    let mut k: usize = 0;
    assert(px@.take(0) =~= Seq::<u8>::empty());
    while k < px.len()
        invariant
            k <= px.len(),
            k % 4 == 0,
            px.len() % 4 == 0,
            r@ == argb_to_rgba(px@.take(k as int)),
        decreases px.len() - k,
    {
        let ghost prefix = px@.take(k + 4);
        assert(prefix.take(k as int) =~= px@.take(k as int));
        r.push(px[k + 1]);
        r.push(px[k + 2]);
        r.push(px[k + 3]);
        r.push(px[k]);
        assert(r@ =~= argb_to_rgba(prefix));
        k += 4;
    }
    assert(px@.take(px.len() as int) =~= px@);
    r
}

/// A valid advertised pixmap in RGBA order.
fn convert(w: i32, h: i32, px: &Vec<u8>) -> (r: Option<RgbaImage>)
    ensures
        image_view(r) == convert_pixmap(w, h, px@),
{
    if w <= 0 || h <= 0 {
        return None;
    }
    let wu = w as usize;
    let hu = h as usize;
    let area = match wu.checked_mul(hu) {
        Some(a) => a,
        None => {
            assert(w * h * 4 > usize::MAX) by (nonlinear_arith)
                requires wu * hu > usize::MAX, wu == w, hu == h, w > 0, h > 0;
            return None;
        },
    };
    let size = match area.checked_mul(4) {
        Some(s) => s,
        None => {
            assert(w * h * 4 > usize::MAX) by (nonlinear_arith)
                requires area * 4 > usize::MAX, area == wu * hu, wu == w, hu == h;
            return None;
        },
    };
    assert(size == w * h * 4) by (nonlinear_arith)
        requires size == area * 4, area == wu * hu, wu == w, hu == h;
    if px.len() != size {
        return None;
    }
    let pixels = rotate_pixels(px);
    Some(RgbaImage { width: w as u32, height: h as u32, pixels })
}

/// Keeps the largest valid pixmap an item advertises; among equal sizes, the first.
/// Dimensions must be positive and storage exactly `width * height * 4` bytes.
pub fn parse_pixmap_values(values: Vec<(i32, i32, Vec<u8>)>) -> (r: Option<RgbaImage>)
    ensures
        image_view(r) == pick_pixmap(pixmap_values_view(values@)),
{
    let ghost all = pixmap_values_view(values@);
    let mut best: Option<RgbaImage> = None;
    let mut i: usize = 0;
    assert(all.take(0) =~= Seq::<(i32, i32, Seq<u8>)>::empty());
    while i < values.len()
        invariant
            i <= values.len(),
            all == pixmap_values_view(values@),
            image_view(best) == pick_pixmap(all.take(i as int)),
        decreases values.len() - i,
    {
        assert(all.take(i + 1).drop_last() =~= all.take(i as int));
        let candidate = convert(values[i].0, values[i].1, &values[i].2);
        match candidate {
            None => {},
            Some(img) => {
                let replace = match &best {
                    None => true,
                    Some(b) => img.pixels.len() > b.pixels.len(),
                };
                if replace {
                    best = Some(img);
                }
            },
        }
        i += 1;
    }
    assert(all.take(values.len() as int) =~= all);
    best
}

/// The bytes of a byte container.
pub open spec fn get_bytes(v: Value) -> Option<Seq<u8>> {
    match children(v) {
        Some(cs) => if forall|i: int| 0 <= i < cs.len() ==> #[trigger] cs[i] is Byte {
            Some(Seq::new(cs.len(), |i: int| cs[i]->Byte_0))
        } else {
            None
        },
        None => None,
    }
}

/// An `(iiay)` pixmap read from a tuple of at least three children.
pub open spec fn get_pixmap(v: Value) -> Option<(i32, i32, Seq<u8>)> {
    match v {
        Value::Tuple(xs) => if xs@.len() >= 3 && get_i32(xs@[0]) is Some && get_i32(xs@[1]) is Some
            && get_bytes(xs@[2]) is Some {
            Some((get_i32(xs@[0])->0, get_i32(xs@[1])->0, get_bytes(xs@[2])->0))
        } else {
            None
        },
        _ => None,
    }
}

/// The pixmaps of an `a(iiay)` container.
pub open spec fn get_pixmaps(v: Value) -> Option<Seq<(i32, i32, Seq<u8>)>> {
    match children(v) {
        Some(cs) => if forall|i: int| 0 <= i < cs.len() ==> #[trigger] get_pixmap(cs[i]) is Some {
            Some(Seq::new(cs.len(), |i: int| get_pixmap(cs[i])->0))
        } else {
            None
        },
        None => None,
    }
}

fn value_children(v: &Value) -> (r: Option<&Vec<Value>>)
    ensures
        match r {
            Some(cs) => children(*v) == Some(cs@) && !(v is Variant),
            None => children(*v) is None || v is Variant,
        },
{
    match v {
        Value::Array(_, xs) => Some(xs),
        Value::Tuple(xs) => Some(xs),
        _ => None,
    }
}

pub(crate) fn read_bytes(v: &Value) -> (r: Option<Vec<u8>>)
    ensures
        match r {
            Some(b) => get_bytes(*v) == Some(b@),
            None => get_bytes(*v) is None,
        },
{
    if let Value::Variant(inner) = v {
        if let Value::Byte(b) = &**inner {
            let mut out: Vec<u8> = Vec::new();
            out.push(*b);
            assert(out@ =~= Seq::new(1, |i: int| seq![**inner][i]->Byte_0));
            return Some(out);
        }
        assert(!(seq![**inner][0] is Byte));
        return None;
    }
    let cs = match value_children(v) {
        Some(cs) => cs,
        None => {
            return None;
        },
    };
    let mut out: Vec<u8> = Vec::new();
    let mut i: usize = 0;
    while i < cs.len()
        invariant
            i <= cs.len(),
            children(*v) == Some(cs@),
            forall|j: int| 0 <= j < i ==> #[trigger] cs@[j] is Byte,
            out@ == Seq::new(i as nat, |j: int| cs@[j]->Byte_0),
        decreases cs.len() - i,
    {
        match &cs[i] {
            Value::Byte(b) => {
                out.push(*b);
            },
            _ => {
                assert(!(cs@[i as int] is Byte));
                return None;
            },
        }
        assert(out@ =~= Seq::new((i + 1) as nat, |j: int| cs@[j]->Byte_0));
        i += 1;
    }
    Some(out)
}

fn read_pixmap(v: &Value) -> (r: Option<(i32, i32, Vec<u8>)>)
    ensures
        match r {
            Some(p) => get_pixmap(*v) == Some((p.0, p.1, p.2@)),
            None => get_pixmap(*v) is None,
        },
{
    match v {
        Value::Tuple(xs) => {
            if xs.len() < 3 {
                return None;
            }
            let w = match &xs[0] {
                Value::Int32(w) => *w,
                _ => {
                    return None;
                },
            };
            let h = match &xs[1] {
                Value::Int32(h) => *h,
                _ => {
                    return None;
                },
            };
            match read_bytes(&xs[2]) {
                Some(b) => Some((w, h, b)),
                None => None,
            }
        },
        _ => None,
    }
}

fn read_pixmaps(v: &Value) -> (r: Option<Vec<(i32, i32, Vec<u8>)>>)
    ensures
        match r {
            Some(p) => get_pixmaps(*v) == Some(pixmap_values_view(p@)),
            None => get_pixmaps(*v) is None,
        },
{
    if let Value::Variant(inner) = v {
        return match read_pixmap(&**inner) {
            Some(p) => {
                let mut out = Vec::new();
                out.push(p);
                assert(pixmap_values_view(out@) =~= Seq::new(1, |i: int| get_pixmap(seq![**inner][i])->0));
                Some(out)
            },
            None => {
                assert(!(get_pixmap(seq![**inner][0]) is Some));
                None
            },
        };
    }
    let cs = match value_children(v) {
        Some(cs) => cs,
        None => {
            return None;
        },
    };
    let mut out: Vec<(i32, i32, Vec<u8>)> = Vec::new();
    let mut i: usize = 0;
    while i < cs.len()
        invariant
            i <= cs.len(),
            children(*v) == Some(cs@),
            forall|j: int| 0 <= j < i ==> #[trigger] get_pixmap(cs@[j]) is Some,
            pixmap_values_view(out@) == Seq::new(i as nat, |j: int| get_pixmap(cs@[j])->0),
        decreases cs.len() - i,
    {
        let ghost before = out@;
        match read_pixmap(&cs[i]) {
            Some(p) => {
                let ghost pv = (p.0, p.1, p.2@);
                out.push(p);
                assert(pixmap_values_view(out@) =~= pixmap_values_view(before).push(pv));
            },
            None => {
                assert(!(get_pixmap(cs@[i as int]) is Some));
                return None;
            },
        }
        assert(pixmap_values_view(out@) =~= Seq::new((i + 1) as nat, |j: int| get_pixmap(cs@[j])->0));
        i += 1;
    }
    Some(out)
}

/// The largest valid pixmap of an `a(iiay)` value.
pub fn parse_pixmaps(value: &Value) -> (r: Option<RgbaImage>)
    ensures
        image_view(r) == match get_pixmaps(*value) {
            Some(vs) => pick_pixmap(vs),
            None => None,
        },
{
    match read_pixmaps(value) {
        Some(vs) => parse_pixmap_values(vs),
        None => None,
    }
}

/// A character allowed inside an object path element.
pub open spec fn path_char(c: char) -> bool {
    ('a' <= c <= 'z') || ('A' <= c <= 'Z') || ('0' <= c <= '9') || c == '_'
}

/// A D-Bus object path: `/`, or `/`-separated nonempty elements of `[A-Za-z0-9_]`.
pub open spec fn is_object_path(p: Seq<char>) -> bool {
    &&& p.len() > 0
    &&& p[0] == '/'
    &&& forall|i: int| 0 <= i < p.len() ==> #[trigger] p[i] == '/' || path_char(p[i])
    &&& forall|i: int| 0 < i < p.len() && #[trigger] p[i] == '/' ==> p[i - 1] != '/'
    &&& (p.len() == 1 || p.last() != '/')
}

/// Whether a string is a valid D-Bus object path.
pub fn object_path_valid(s: &str) -> (r: bool)
    ensures
        r == is_object_path(s@),
{
    let p = chars_of(s);
    if p.len() == 0 || p[0] != '/' {
        return false;
    }
    let mut i: usize = 0;
    while i < p.len()
        invariant
            i <= p.len(),
            p@ == s@,
            forall|j: int| 0 <= j < i ==> #[trigger] p@[j] == '/' || path_char(p@[j]),
            forall|j: int| 0 < j < i && #[trigger] p@[j] == '/' ==> p@[j - 1] != '/',
        decreases p.len() - i,
    {
        let c = p[i];
        if c == '/' {
            if i > 0 && p[i - 1] == '/' {
                return false;
            }
        } else if !(('a' <= c && c <= 'z') || ('A' <= c && c <= 'Z') || ('0' <= c && c <= '9') || c == '_') {
            return false;
        }
        i += 1;
    }
    p.len() == 1 || p[p.len() - 1] != '/'
}

/// An icon by theme name, with an optional pixmap.
#[derive(Clone, Debug)]
pub struct Icon {
    pub name: String,
    pub pixmap: Option<RgbaImage>,
}

/// A tooltip: icon, title and description.
#[derive(Clone, Debug)]
pub struct Tooltip {
    pub icon: Icon,
    pub title: String,
    pub description: String,
}

/// One status notifier item as the tray presents it.
#[derive(Clone, Debug)]
pub struct TrayItem {
    pub key: ItemKey,
    pub category: String,
    pub id: String,
    pub title: String,
    pub status: String,
    pub window_id: u32,
    pub icon_theme_path: String,
    pub icon: Icon,
    pub overlay: Icon,
    pub attention: Icon,
    pub attention_movie_name: String,
    pub tooltip: Tooltip,
    pub item_is_menu: bool,
    /// A D-Bus menu endpoint on `key.owner`; the root path means no menu.
    pub menu_path: Option<String>,
    pub label: String,
}

/// A text property, empty when missing or not text.
pub open spec fn prop_string(props: Seq<(String, Value)>, name: Seq<char>) -> Seq<char> {
    match lookup(props, name) {
        Some(x) => match get_string(x) {
            Some(s) => s,
            None => Seq::empty(),
        },
        None => Seq::empty(),
    }
}

/// The largest valid pixmap of a property.
pub open spec fn prop_pixmap(props: Seq<(String, Value)>, name: Seq<char>) -> Option<RgbaImageView> {
    match lookup(props, name) {
        Some(x) => match get_pixmaps(x) {
            Some(vs) => pick_pixmap(vs),
            None => None,
        },
        None => None,
    }
}

/// Whether a property is present and text.
pub open spec fn has_text(props: Seq<(String, Value)>, name: Seq<char>) -> bool {
    lookup(props, name) matches Some(x) && get_string(x) is Some
}

/// The `(sa(iiay)ss)` tooltip: icon name, pixmaps, title and description.
pub open spec fn tooltip_value(props: Seq<(String, Value)>) -> Option<(Seq<char>, Seq<(i32, i32, Seq<u8>)>, Seq<char>, Seq<char>)> {
    match lookup(props, "ToolTip"@) {
        Some(Value::Tuple(xs)) => if xs@.len() >= 4 && get_string(xs@[0]) is Some && get_pixmaps(
            xs@[1],
        ) is Some && get_string(xs@[2]) is Some && get_string(xs@[3]) is Some {
            Some(
                (
                    get_string(xs@[0])->0,
                    get_pixmaps(xs@[1])->0,
                    get_string(xs@[2])->0,
                    get_string(xs@[3])->0,
                ),
            )
        } else {
            None
        },
        _ => None,
    }
}

/// A window identifier: unsigned, or a signed one reinterpreted; otherwise zero.
pub open spec fn window_id_of(props: Seq<(String, Value)>) -> u32 {
    match lookup(props, "WindowId"@) {
        Some(Value::UInt32(u)) => u,
        Some(Value::Int32(i)) => i as u32,
        _ => 0,
    }
}

/// A menu object path other than the root.
pub open spec fn menu_path_of(props: Seq<(String, Value)>) -> Option<Seq<char>> {
    match lookup(props, "Menu"@) {
        Some(x) => match get_string(x) {
            Some(p) => if p != seq!['/'] && is_object_path(p) {
                Some(p)
            } else {
                None
            },
            None => None,
        },
        None => None,
    }
}

/// How an item's fields follow from its properties.
pub open spec fn item_from_properties(item: TrayItem, key: ItemKey, props: Seq<(String, Value)>) -> bool {
    let tip = tooltip_value(props);
    &&& item.key == key
    &&& item.id@ == get_string(lookup(props, "Id"@)->0)->0
    &&& item.status@ == get_string(lookup(props, "Status"@)->0)->0
    &&& item.category@ == prop_string(props, "Category"@)
    &&& item.title@ == prop_string(props, "Title"@)
    &&& item.window_id == window_id_of(props)
    &&& item.icon_theme_path@ == prop_string(props, "IconThemePath"@)
    &&& item.icon.name@ == prop_string(props, "IconName"@)
    &&& image_view(item.icon.pixmap) == prop_pixmap(props, "IconPixmap"@)
    &&& item.overlay.name@ == prop_string(props, "OverlayIconName"@)
    &&& image_view(item.overlay.pixmap) == prop_pixmap(props, "OverlayIconPixmap"@)
    &&& item.attention.name@ == prop_string(props, "AttentionIconName"@)
    &&& image_view(item.attention.pixmap) == prop_pixmap(props, "AttentionIconPixmap"@)
    &&& item.attention_movie_name@ == prop_string(props, "AttentionMovieName"@)
    &&& match tip {
        Some(t) => item.tooltip.icon.name@ == t.0 && image_view(item.tooltip.icon.pixmap)
            == pick_pixmap(t.1) && item.tooltip.title@ == t.2 && item.tooltip.description@ == t.3,
        None => item.tooltip.icon.name@ == Seq::<char>::empty() && item.tooltip.icon.pixmap is None
            && item.tooltip.title@ == Seq::<char>::empty() && item.tooltip.description@
            == Seq::<char>::empty(),
    }
    &&& item.item_is_menu == (lookup(props, "ItemIsMenu"@) matches Some(x) && get_bool(x) == Some(true))
    &&& match item.menu_path {
        Some(p) => menu_path_of(props) == Some(p@),
        None => menu_path_of(props) is None,
    }
    &&& item.label@ == prop_string(props, "XAyatanaLabel"@)
}

fn read_string_prop(props: &Vec<(String, Value)>, name: &str) -> (r: String)
    ensures
        r@ == prop_string(props@, name@),
{
    match dict_get(props, name) {
        Some(x) => match value_string(x) {
            Some(s) => s,
            None => String::new(),
        },
        None => String::new(),
    }
}

fn read_icon(props: &Vec<(String, Value)>, name: &str, pixmap: &str) -> (r: Icon)
    ensures
        r.name@ == prop_string(props@, name@),
        image_view(r.pixmap) == prop_pixmap(props@, pixmap@),
{
    let name = read_string_prop(props, name);
    let pixmap = match dict_get(props, pixmap) {
        Some(x) => parse_pixmaps(x),
        None => None,
    };
    Icon { name, pixmap }
}

fn read_tooltip(props: &Vec<(String, Value)>) -> (r: Tooltip)
    ensures
        match tooltip_value(props@) {
            Some(t) => r.icon.name@ == t.0 && image_view(r.icon.pixmap) == pick_pixmap(t.1)
                && r.title@ == t.2 && r.description@ == t.3,
            None => r.icon.name@ == Seq::<char>::empty() && r.icon.pixmap is None && r.title@
                == Seq::<char>::empty() && r.description@ == Seq::<char>::empty(),
        },
{
    let empty = Tooltip {
        icon: Icon { name: String::new(), pixmap: None },
        title: String::new(),
        description: String::new(),
    };
    let xs = match dict_get(props, "ToolTip") {
        Some(Value::Tuple(xs)) => xs,
        _ => {
            return empty;
        },
    };
    if xs.len() < 4 {
        return empty;
    }
    let name = match value_string(&xs[0]) {
        Some(s) => s,
        None => {
            return empty;
        },
    };
    let pixmaps = match read_pixmaps(&xs[1]) {
        Some(p) => p,
        None => {
            return empty;
        },
    };
    let title = match value_string(&xs[2]) {
        Some(s) => s,
        None => {
            return empty;
        },
    };
    let description = match value_string(&xs[3]) {
        Some(s) => s,
        None => {
            return empty;
        },
    };
    Tooltip { icon: Icon { name, pixmap: parse_pixmap_values(pixmaps) }, title, description }
}

/// Reads an item's metadata. `Id` and `Status` must be text; other properties fall
/// back to empty values, an unusable menu path to none, an invalid tooltip to empty.
pub fn parse_item(key: ItemKey, properties: &Vec<(String, Value)>) -> (r: Option<TrayItem>)
    ensures
        r is Some <==> has_text(properties@, "Id"@) && has_text(properties@, "Status"@),
        r matches Some(item) ==> item_from_properties(item, key, properties@),
{
    let id = match dict_get(properties, "Id") {
        Some(x) => match value_string(x) {
            Some(s) => s,
            None => {
                return None;
            },
        },
        None => {
            return None;
        },
    };
    let status = match dict_get(properties, "Status") {
        Some(x) => match value_string(x) {
            Some(s) => s,
            None => {
                return None;
            },
        },
        None => {
            return None;
        },
    };
    let window_id = match dict_get(properties, "WindowId") {
        Some(Value::UInt32(u)) => *u,
        Some(Value::Int32(i)) => #[verifier::truncate] (*i as u32),
        _ => 0,
    };
    let item_is_menu = match dict_get(properties, "ItemIsMenu") {
        Some(Value::Bool(b)) => *b,
        _ => false,
    };
    let menu_path = match dict_get(properties, "Menu") {
        Some(x) => match value_string(x) {
            Some(p) => {
                let root = crate::text::str_eq(p.as_str(), "/");
                proof {
                    reveal_strlit("/");
                    assert("/"@ =~= seq!['/']);
                }
                if !root && object_path_valid(p.as_str()) {
                    Some(p)
                } else {
                    None
                }
            },
            None => None,
        },
        None => None,
    };
    let item = TrayItem {
        key,
        category: read_string_prop(properties, "Category"),
        id,
        title: read_string_prop(properties, "Title"),
        status,
        window_id,
        icon_theme_path: read_string_prop(properties, "IconThemePath"),
        icon: read_icon(properties, "IconName", "IconPixmap"),
        overlay: read_icon(properties, "OverlayIconName", "OverlayIconPixmap"),
        attention: read_icon(properties, "AttentionIconName", "AttentionIconPixmap"),
        attention_movie_name: read_string_prop(properties, "AttentionMovieName"),
        tooltip: read_tooltip(properties),
        item_is_menu,
        menu_path,
        label: read_string_prop(properties, "XAyatanaLabel"),
    };
    assert(item.window_id == window_id_of(properties@));
    assert(item.item_is_menu == (lookup(properties@, "ItemIsMenu"@) matches Some(x) && get_bool(x) == Some(true)));
    assert(match item.menu_path {
        Some(p) => menu_path_of(properties@) == Some(p@),
        None => menu_path_of(properties@) is None,
    });
    Some(item)
}

} // verus!
