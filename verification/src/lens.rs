//! Lens profiles of a Lensfun XML database: the reading of the document's
//! events into profiles, and the lookup of a lens by maker and model.
//! Correction coefficients are kept as the attribute text they were read
//! from; turning them into numbers is left to the caller.

use vstd::prelude::*;
use quick_xml::events::Event::{Empty, End, Eof, Start, Text};
use quick_xml::reader::Reader;
use crate::lens::LensXmlEvent::{XmlEmpty, XmlEnd, XmlOther, XmlStart, XmlText};
use vstd::string::StringSliceAdditionalSpecFns;
use crate::text::{all_digits, ascii_lowercase, chars_equal, chars_of, extend_chars, is_digit, lowercase_text, lowercased, to_ascii_lowercase};

verus! {

/// Lens distortion models.
#[derive(Debug, Clone, Copy, PartialEq, Eq, Structural)]
pub enum DistortionModel {
    PtLens,
    Poly3,
}

/// One XML event: element names as their bytes, text as unescaped
/// text, and the attributes of an empty element in order, each as key and
/// value bytes (`None` for a malformed one).
pub enum LensXmlEvent {
    XmlStart(Vec<u8>),
    XmlEmpty(Vec<u8>, Vec<Option<(Vec<u8>, Vec<u8>)>>),
    XmlText(String),
    XmlEnd(Vec<u8>),
    XmlOther,
}

pub enum LensXmlEventView {
    Start(Seq<u8>),
    Empty(Seq<u8>, Seq<Option<(Seq<u8>, Seq<u8>)>>),
    Text(Seq<char>),
    End(Seq<u8>),
    Other,
}

pub open spec fn attribute_view(a: Option<(Vec<u8>, Vec<u8>)>) -> Option<(Seq<u8>, Seq<u8>)> {
    match a {
        Some((k, v)) => Some((k@, v@)),
        None => None,
    }
}

impl View for LensXmlEvent {
    type V = LensXmlEventView;

    open spec fn view(&self) -> LensXmlEventView {
        match self {
            LensXmlEvent::XmlStart(n) => LensXmlEventView::Start(n@),
            LensXmlEvent::XmlEmpty(n, attrs) => LensXmlEventView::Empty(n@, attr_views(attrs@)),
            LensXmlEvent::XmlText(t) => LensXmlEventView::Text(t@),
            LensXmlEvent::XmlEnd(n) => LensXmlEventView::End(n@),
            LensXmlEvent::XmlOther => LensXmlEventView::Other,
        }
    }
}

/// Name for the events `quick_xml` reads from `xml` with text trimming on,
/// up to the end of the document or its first error; text is unescaped
/// (empty when that fails).
pub uninterp spec fn lensfun_xml_events(xml: Seq<char>) -> Seq<LensXmlEventView>;

/// Wraps `quick_xml::reader::Reader` (`from_str`, `trim_text(true)`,
/// `read_event` until `Eof` or an error). Trusted: the result is the named
/// event sequence of `xml`.
#[verifier::external_body]
fn read_lensfun_xml_events(xml: &str) -> (r: Vec<LensXmlEvent>)
    ensures
        r@.map_values(|e: LensXmlEvent| e@) == lensfun_xml_events(xml@),
{
    let mut reader = Reader::from_str(xml);
    reader.config_mut().trim_text(true);
    let mut out = vec![];
    while let Ok(ev) = reader.read_event() {
        let item = match ev {
            Start(e) => XmlStart(e.name().0.to_vec()),
            Empty(e) => XmlEmpty(e.name().0.to_vec(), e.attributes().map(|a| a.ok().map(|a| (a.key.0.to_vec(), a.value.to_vec()))).collect()),
            Text(e) => XmlText(e.unescape().unwrap_or_default().into_owned()),
            End(e) => XmlEnd(e.to_vec()),
            Eof => break,
            _ => XmlOther,
        };
        out.push(item);
    }
    out
}

pub open spec fn is_sign(c: char) -> bool {
    c == '+' || c == '-'
}

pub open spec fn is_exponent_mark(c: char) -> bool {
    c == 'e' || c == 'E'
}

/// Index of the first exponent mark, or -1.
pub open spec fn first_exponent_mark(s: Seq<char>) -> int
    decreases s.len(),
{
    if s.len() == 0 {
        -1
    } else if is_exponent_mark(s[0]) {
        0
    } else {
        let r = first_exponent_mark(s.drop_first());
        if r < 0 { -1 } else { r + 1 }
    }
}

/// Digits with at most one '.', and at least one digit.
pub open spec fn is_mantissa(s: Seq<char>) -> bool {
    &&& forall|i: int| 0 <= i < s.len() ==> is_digit(#[trigger] s[i]) || s[i] == '.'
    &&& forall|i: int, j: int| 0 <= i < j < s.len() && #[trigger] s[i] == '.' ==> #[trigger] s[j] != '.'
    &&& exists|i: int| 0 <= i < s.len() && is_digit(#[trigger] s[i])
}

/// An optional sign and at least one digit.
pub open spec fn is_exponent(s: Seq<char>) -> bool {
    let t = if s.len() > 0 && is_sign(s[0]) { s.drop_first() } else { s };
    t.len() > 0 && all_digits(t)
}

pub open spec fn is_decimal_number(s: Seq<char>) -> bool {
    let e = first_exponent_mark(s);
    if e < 0 {
        is_mantissa(s)
    } else {
        is_mantissa(s.subrange(0, e)) && is_exponent(s.subrange(e + 1, s.len() as int))
    }
}

/// The text Rust's floating-point `from_str` accepts, by the grammar its
/// documentation gives: an optional sign, then "inf", "infinity" or "nan"
/// in any case, or a decimal number with an optional exponent.
pub open spec fn is_number_text(s: Seq<char>) -> bool {
    let t = if s.len() > 0 && is_sign(s[0]) { s.drop_first() } else { s };
    let l = ascii_lowercase(t);
    l == "inf"@ || l == "infinity"@ || l == "nan"@ || is_decimal_number(t)
}

proof fn lemma_first_exponent_mark(s: Seq<char>)
    ensures
        -1 <= first_exponent_mark(s) < s.len(),
        first_exponent_mark(s) >= 0 ==> is_exponent_mark(s[first_exponent_mark(s)]),
        forall|i: int| 0 <= i < (if first_exponent_mark(s) < 0 { s.len() as int } else { first_exponent_mark(s) }) ==> !is_exponent_mark(#[trigger] s[i]),
    decreases s.len(),
{
    if s.len() > 0 && !is_exponent_mark(s[0]) {
        lemma_first_exponent_mark(s.drop_first());
        assert forall|i: int| 0 <= i < (if first_exponent_mark(s) < 0 { s.len() as int } else { first_exponent_mark(s) }) implies !is_exponent_mark(#[trigger] s[i]) by {
            if i > 0 {
                assert(s[i] == s.drop_first()[i - 1]);
            }
        }
    }
}

fn is_mantissa_chars(s: &[char], start: usize, end: usize) -> (r: bool)
    requires
        start <= end <= s@.len(),
    ensures
        r == is_mantissa(s@.subrange(start as int, end as int)),
{
    let ghost m = s@.subrange(start as int, end as int);
    let mut seen_dot = false;
    let mut seen_digit = false;
    let mut i = start;
    while i < end
        invariant
            start <= i <= end <= s@.len(),
            m == s@.subrange(start as int, end as int),
            forall|k: int| 0 <= k < i - start ==> is_digit(#[trigger] m[k]) || m[k] == '.',
            forall|a: int, b: int| 0 <= a < b < i - start && #[trigger] m[a] == '.' ==> #[trigger] m[b] != '.',
            seen_dot == (exists|k: int| 0 <= k < i - start && #[trigger] m[k] == '.'),
            seen_digit == (exists|k: int| 0 <= k < i - start && is_digit(#[trigger] m[k])),
        decreases end - i,
    {
        let c = s[i];
        assert(m[i - start] == c);
        if '0' <= c && c <= '9' {
            seen_digit = true;
        } else if c == '.' {
            if seen_dot {
                let ghost k = choose|k: int| 0 <= k < i - start && #[trigger] m[k] == '.';
                assert(m[k] == '.' && m[i - start] == '.');
                return false;
            }
            seen_dot = true;
        } else {
            assert(!(is_digit(m[i - start]) || m[i - start] == '.'));
            return false;
        }
        i = i + 1;
    }
    seen_digit
}

fn is_exponent_chars(s: &[char], start: usize) -> (r: bool)
    requires
        start <= s@.len(),
    ensures
        r == is_exponent(s@.subrange(start as int, s@.len() as int)),
{
    let ghost e = s@.subrange(start as int, s@.len() as int);
    let mut i = start;
    if i < s.len() && (s[i] == '+' || s[i] == '-') {
        i = i + 1;
    }
    let ghost t = s@.subrange(i as int, s@.len() as int);
    assert(t =~= (if e.len() > 0 && is_sign(e[0]) { e.drop_first() } else { e }));
    if i == s.len() {
        return false;
    }
    let first = i;
    while i < s.len()
        invariant
            first <= i <= s@.len(),
            first < s@.len(),
            t == s@.subrange(first as int, s@.len() as int),
            e == s@.subrange(start as int, s@.len() as int),
            t == (if e.len() > 0 && is_sign(e[0]) { e.drop_first() } else { e }),
            forall|k: int| 0 <= k < i - first ==> is_digit(#[trigger] t[k]),
        decreases s.len() - i,
    {
        let c = s[i];
        assert(t[i - first] == c);
        if !('0' <= c && c <= '9') {
            assert(!is_digit(t[i - first]));
            return false;
        }
        i = i + 1;
    }
    assert(all_digits(t));
    true
}

/// Whether Rust's floating-point `from_str` accepts `text` (see
/// `is_number_text`).
pub fn number_text_accepted(text: &str) -> (r: bool)
    ensures
        r == is_number_text(text@),
{
    let s = chars_of(text);
    number_chars_accepted(&s)
}

fn number_chars_accepted(s: &Vec<char>) -> (r: bool)
    ensures
        r == is_number_text(s@),
{
    let mut start: usize = 0;
    if s.len() > 0 && (s[0] == '+' || s[0] == '-') {
        start = 1;
    }
    let ghost t = s@.subrange(start as int, s@.len() as int);
    assert(t =~= (if s@.len() > 0 && is_sign(s@[0]) { s@.drop_first() } else { s@ }));
    let rest = crate::text::suffix_from(&s, start);
    let lower = to_ascii_lowercase(&rest);
    let inf = chars_of("inf");
    let infinity = chars_of("infinity");
    let nan = chars_of("nan");
    if chars_equal(&lower, &inf) || chars_equal(&lower, &infinity) || chars_equal(&lower, &nan) {
        return true;
    }
    let mut e = start;
    while e < s.len() && s[e] != 'e' && s[e] != 'E'
        invariant
            start <= e <= s@.len(),
            forall|k: int| start <= k < e ==> !is_exponent_mark(#[trigger] s@[k]),
        decreases s.len() - e,
    {
        e = e + 1;
    }
    proof {
        lemma_first_exponent_mark(t);
        if e < s.len() {
            assert(is_exponent_mark(t[e - start]));
            assert forall|k: int| 0 <= k < e - start implies !is_exponent_mark(#[trigger] t[k]) by {
                assert(t[k] == s@[k + start]);
            }
            if first_exponent_mark(t) != e - start {
                if first_exponent_mark(t) < 0 {
                    assert(!is_exponent_mark(t[e - start]));
                } else if first_exponent_mark(t) < e - start {
                    assert(t[first_exponent_mark(t)] == s@[first_exponent_mark(t) + start]);
                }
            }
            assert(first_exponent_mark(t) == e - start);
            assert(t.subrange(0, e - start) =~= s@.subrange(start as int, e as int));
            assert(t.subrange(e - start + 1, t.len() as int) =~= s@.subrange(e + 1, s@.len() as int));
        } else {
            if first_exponent_mark(t) >= 0 {
                assert(t[first_exponent_mark(t)] == s@[first_exponent_mark(t) + start]);
            }
            assert(first_exponent_mark(t) < 0);
            assert(t =~= s@.subrange(start as int, s@.len() as int));
        }
    }
    if e < s.len() {
        is_mantissa_chars(&s, start, e) && is_exponent_chars(&s, e + 1)
    } else {
        is_mantissa_chars(&s, start, s.len())
    }
}

/// Distortion coefficients as read: the model and the text of each
/// coefficient attribute (`None` for a missing one, taken as 0).
pub struct DistortionCoeffs {
    pub model: DistortionModel,
    pub a: Option<String>,
    pub b: Option<String>,
    pub c: Option<String>,
}

/// Vignetting coefficients as read.
pub struct VignetteCoeffs {
    pub k1: String,
    pub k2: String,
    pub k3: String,
}

/// Chromatic aberration coefficients as read (`None` taken as 1).
pub struct TcaCoeffs {
    pub vr: Option<String>,
    pub vb: Option<String>,
}

/// A lens of the database.
pub struct LensProfile {
    pub maker: String,
    pub model: String,
    pub mount: String,
    pub distortion: Option<DistortionCoeffs>,
    pub vignetting: Option<VignetteCoeffs>,
    pub tca: Option<TcaCoeffs>,
}

pub struct DistortionCoeffsView {
    pub model: DistortionModel,
    pub a: Option<Seq<char>>,
    pub b: Option<Seq<char>>,
    pub c: Option<Seq<char>>,
}

pub struct VignetteCoeffsView {
    pub k1: Seq<char>,
    pub k2: Seq<char>,
    pub k3: Seq<char>,
}

pub struct TcaCoeffsView {
    pub vr: Option<Seq<char>>,
    pub vb: Option<Seq<char>>,
}

pub struct LensProfileView {
    pub maker: Seq<char>,
    pub model: Seq<char>,
    pub mount: Seq<char>,
    pub distortion: Option<DistortionCoeffsView>,
    pub vignetting: Option<VignetteCoeffsView>,
    pub tca: Option<TcaCoeffsView>,
}

pub open spec fn opt_text(o: Option<String>) -> Option<Seq<char>> {
    match o {
        Some(s) => Some(s@),
        None => None,
    }
}

impl View for DistortionCoeffs {
    type V = DistortionCoeffsView;

    open spec fn view(&self) -> DistortionCoeffsView {
        DistortionCoeffsView { model: self.model, a: opt_text(self.a), b: opt_text(self.b), c: opt_text(self.c) }
    }
}

impl View for VignetteCoeffs {
    type V = VignetteCoeffsView;

    open spec fn view(&self) -> VignetteCoeffsView {
        VignetteCoeffsView { k1: self.k1@, k2: self.k2@, k3: self.k3@ }
    }
}

impl View for TcaCoeffs {
    type V = TcaCoeffsView;

    open spec fn view(&self) -> TcaCoeffsView {
        TcaCoeffsView { vr: opt_text(self.vr), vb: opt_text(self.vb) }
    }
}

impl View for LensProfile {
    type V = LensProfileView;

    open spec fn view(&self) -> LensProfileView {
        LensProfileView {
            maker: self.maker@,
            model: self.model@,
            mount: self.mount@,
            distortion: match self.distortion {
                Some(d) => Some(d@),
                None => None,
            },
            vignetting: match self.vignetting {
                Some(v) => Some(v@),
                None => None,
            },
            tca: match self.tca {
                Some(t) => Some(t@),
                None => None,
            },
        }
    }
}

/// The bytes of `s`, one per character (text that is all ASCII).
pub open spec fn latin1(v: Seq<u8>) -> Seq<char> {
    v.map_values(|b: u8| b as char)
}

pub open spec fn attr_views(attrs: Seq<Option<(Vec<u8>, Vec<u8>)>>) -> Seq<Option<(Seq<u8>, Seq<u8>)>> {
    attrs.map_values(|a: Option<(Vec<u8>, Vec<u8>)>| attribute_view(a))
}

/// The value of the first well-formed attribute named `key`.
pub open spec fn attr_value(attrs: Seq<Option<(Seq<u8>, Seq<u8>)>>, key: Seq<u8>) -> Option<Seq<u8>>
    decreases attrs.len(),
{
    if attrs.len() == 0 {
        None
    } else {
        match attrs[0] {
            Some((k, v)) => if k == key {
                Some(v)
            } else {
                attr_value(attrs.drop_first(), key)
            },
            None => attr_value(attrs.drop_first(), key),
        }
    }
}

/// The value of the first well-formed attribute named `key` that reads as
/// a number.
pub open spec fn attr_number(attrs: Seq<Option<(Seq<u8>, Seq<u8>)>>, key: Seq<u8>) -> Option<Seq<u8>>
    decreases attrs.len(),
{
    if attrs.len() == 0 {
        None
    } else {
        match attrs[0] {
            Some((k, v)) => if k == key && is_number_text(latin1(v)) {
                Some(v)
            } else {
                attr_number(attrs.drop_first(), key)
            },
            None => attr_number(attrs.drop_first(), key),
        }
    }
}

pub open spec fn opt_latin1(o: Option<Seq<u8>>) -> Option<Seq<char>> {
    match o {
        Some(v) => Some(latin1(v)),
        None => None,
    }
}

pub open spec fn distortion_of(attrs: Seq<Option<(Seq<u8>, Seq<u8>)>>) -> Option<DistortionCoeffsView> {
    match attr_value(attrs, "model".spec_bytes()) {
        Some(m) => if m == "ptlens".spec_bytes() {
            Some(
                DistortionCoeffsView {
                    model: DistortionModel::PtLens,
                    a: opt_latin1(attr_number(attrs, "a".spec_bytes())),
                    b: opt_latin1(attr_number(attrs, "b".spec_bytes())),
                    c: opt_latin1(attr_number(attrs, "c".spec_bytes())),
                },
            )
        } else if m == "poly3".spec_bytes() {
            Some(DistortionCoeffsView { model: DistortionModel::Poly3, a: opt_latin1(attr_number(attrs, "k1".spec_bytes())), b: None, c: None })
        } else {
            None
        },
        None => None,
    }
}

pub open spec fn vignetting_of(attrs: Seq<Option<(Seq<u8>, Seq<u8>)>>) -> Option<VignetteCoeffsView> {
    match (attr_number(attrs, "k1".spec_bytes()), attr_number(attrs, "k2".spec_bytes()), attr_number(attrs, "k3".spec_bytes())) {
        (Some(k1), Some(k2), Some(k3)) => Some(VignetteCoeffsView { k1: latin1(k1), k2: latin1(k2), k3: latin1(k3) }),
        _ => None,
    }
}

pub open spec fn tca_of(attrs: Seq<Option<(Seq<u8>, Seq<u8>)>>) -> TcaCoeffsView {
    TcaCoeffsView { vr: opt_latin1(attr_number(attrs, "vr".spec_bytes())), vb: opt_latin1(attr_number(attrs, "vb".spec_bytes())) }
}

/// Where the reading of the events stands.
pub struct LensScanState {
    pub profiles: Seq<LensProfileView>,
    pub current: Option<LensProfileView>,
    pub in_lens: bool,
    pub in_calibration: bool,
    pub element: Seq<u8>,
}

pub open spec fn empty_record() -> LensProfileView {
    LensProfileView { maker: Seq::empty(), model: Seq::empty(), mount: Seq::empty(), distortion: None, vignetting: None, tca: None }
}

/// Text of a `maker`, `model` or `mount` element fills that field once.
pub open spec fn with_text(r: LensProfileView, element: Seq<u8>, text: Seq<char>) -> LensProfileView {
    if element == "maker".spec_bytes() && r.maker.len() == 0 {
        LensProfileView { maker: text, ..r }
    } else if element == "model".spec_bytes() && r.model.len() == 0 {
        LensProfileView { model: text, ..r }
    } else if element == "mount".spec_bytes() && r.mount.len() == 0 {
        LensProfileView { mount: text, ..r }
    } else {
        r
    }
}

/// A calibration entry fills its coefficients once: the first one that
/// reads correctly is kept.
pub open spec fn with_calibration(r: LensProfileView, name: Seq<u8>, attrs: Seq<Option<(Seq<u8>, Seq<u8>)>>) -> LensProfileView {
    if name == "distortion".spec_bytes() && r.distortion is None {
        LensProfileView { distortion: distortion_of(attrs), ..r }
    } else if name == "vignetting".spec_bytes() && r.vignetting is None {
        LensProfileView { vignetting: vignetting_of(attrs), ..r }
    } else if name == "tca".spec_bytes() && r.tca is None {
        LensProfileView { tca: Some(tca_of(attrs)), ..r }
    } else {
        r
    }
}

/// The effect of one event.
pub open spec fn lens_scan_step(st: LensScanState, ev: LensXmlEventView) -> LensScanState {
    match ev {
        LensXmlEventView::Start(name) => if name == "lens".spec_bytes() {
            LensScanState { in_lens: true, current: Some(empty_record()), ..st }
        } else if name == "calibration".spec_bytes() && st.in_lens {
            LensScanState { in_calibration: true, ..st }
        } else if (name == "maker".spec_bytes() || name == "model".spec_bytes() || name == "mount".spec_bytes()) && st.in_lens {
            LensScanState { element: name, ..st }
        } else {
            st
        },
        LensXmlEventView::Text(text) => if st.in_lens {
            LensScanState {
                current: match st.current {
                    Some(r) => Some(with_text(r, st.element, text)),
                    None => None,
                },
                element: Seq::empty(),
                ..st
            }
        } else {
            st
        },
        LensXmlEventView::Empty(name, attrs) => if st.in_calibration {
            LensScanState {
                current: match st.current {
                    Some(r) => Some(with_calibration(r, name, attrs)),
                    None => None,
                },
                ..st
            }
        } else {
            st
        },
        LensXmlEventView::End(name) => if name == "lens".spec_bytes() {
            LensScanState {
                profiles: match st.current {
                    Some(r) => st.profiles.push(r),
                    None => st.profiles,
                },
                current: None,
                in_lens: false,
                in_calibration: false,
                ..st
            }
        } else if name == "calibration".spec_bytes() {
            LensScanState { in_calibration: false, ..st }
        } else {
            st
        },
        LensXmlEventView::Other => st,
    }
}

/// The state after the events.
pub open spec fn lens_scan(events: Seq<LensXmlEventView>) -> LensScanState
    decreases events.len(),
{
    if events.len() == 0 {
        LensScanState {
            profiles: Seq::empty(),
            current: None,
            in_lens: false,
            in_calibration: false,
            element: Seq::empty(),
        }
    } else {
        lens_scan_step(lens_scan(events.drop_last()), events.last())
    }
}

fn bytes_are(v: &Vec<u8>, lit: &str) -> (r: bool)
    ensures
        r == (v@ == lit.spec_bytes()),
{
    let b = lit.as_bytes();
    if v.len() != b.len() {
        return false;
    }
    let r = crate::wire::bytes_equal_at(v.as_slice(), 0, b);
    assert(v@.subrange(0, b@.len() as int) =~= v@);
    r
}

fn copy_text(s: &String) -> (r: String)
    ensures
        r@ == s@,
{
    s.clone()
}

fn copy_bytes(v: &Vec<u8>) -> (r: Vec<u8>)
    ensures
        r@ == v@,
{
    let mut r: Vec<u8> = Vec::new();
    for i in 0..v.len()
        invariant
            r@ == v@.subrange(0, i as int),
    {
        r.push(v[i]);
        assert(r@ =~= v@.subrange(0, i + 1));
    }
    assert(v@.subrange(0, v@.len() as int) =~= v@);
    r
}

fn latin1_chars(v: &Vec<u8>) -> (r: Vec<char>)
    ensures
        r@ == latin1(v@),
{
    let mut r: Vec<char> = Vec::new();
    for i in 0..v.len()
        invariant
            r@ == latin1(v@.subrange(0, i as int)),
    {
        r.push(v[i] as char);
        assert(r@ =~= latin1(v@.subrange(0, i + 1)));
    }
    assert(v@.subrange(0, v@.len() as int) =~= v@);
    r
}

fn latin1_text(v: &Vec<u8>) -> (r: String)
    ensures
        r@ == latin1(v@),
{
    let c = latin1_chars(v);
    crate::text::string_of(&c)
}

fn opt_latin1_text(v: Option<Vec<u8>>) -> (r: Option<String>)
    ensures
        opt_text(r) == opt_latin1(match v {
            Some(b) => Some(b@),
            None => None,
        }),
{
    match v {
        Some(b) => Some(latin1_text(&b)),
        None => None,
    }
}

fn find_attr(attrs: &Vec<Option<(Vec<u8>, Vec<u8>)>>, key: &str, numeric: bool) -> (r: Option<Vec<u8>>)
    ensures
        (match r {
            Some(b) => Some(b@),
            None => None,
        }) == (if numeric {
            attr_number(attr_views(attrs@), key.spec_bytes())
        } else {
            attr_value(attr_views(attrs@), key.spec_bytes())
        }),
{
    let ghost all = attr_views(attrs@);
    let ghost k = key.spec_bytes();
    let mut i: usize = 0;
    assert(all.subrange(0, all.len() as int) =~= all);
    while i < attrs.len()
        invariant
            all == attr_views(attrs@),
            k == key.spec_bytes(),
            0 <= i <= attrs.len(),
            (if numeric {
                attr_number(all, k)
            } else {
                attr_value(all, k)
            }) == (if numeric {
                attr_number(all.subrange(i as int, all.len() as int), k)
            } else {
                attr_value(all.subrange(i as int, all.len() as int), k)
            }),
        decreases attrs.len() - i,
    {
        let ghost rest = all.subrange(i as int, all.len() as int);
        assert(rest[0] == attribute_view(attrs@[i as int]));
        assert(rest.drop_first() =~= all.subrange(i + 1, all.len() as int));
        if let Some((ak, v)) = &attrs[i] {
            if bytes_are(ak, key) {
                if !numeric {
                    return Some(copy_bytes(v));
                }
                let chars = latin1_chars(v);
                if number_chars_accepted(&chars) {
                    return Some(copy_bytes(v));
                }
            }
        }
        i = i + 1;
    }
    None
}

fn distortion_from(attrs: &Vec<Option<(Vec<u8>, Vec<u8>)>>) -> (r: Option<DistortionCoeffs>)
    ensures
        (match r {
            Some(d) => Some(d@),
            None => None,
        }) == distortion_of(attr_views(attrs@)),
{
    match find_attr(attrs, "model", false) {
        Some(m) => {
            if bytes_are(&m, "ptlens") {
                Some(DistortionCoeffs {
                    model: DistortionModel::PtLens,
                    a: opt_latin1_text(find_attr(attrs, "a", true)),
                    b: opt_latin1_text(find_attr(attrs, "b", true)),
                    c: opt_latin1_text(find_attr(attrs, "c", true)),
                })
            } else if bytes_are(&m, "poly3") {
                Some(DistortionCoeffs { model: DistortionModel::Poly3, a: opt_latin1_text(find_attr(attrs, "k1", true)), b: None, c: None })
            } else {
                None
            }
        },
        None => None,
    }
}

fn vignetting_from(attrs: &Vec<Option<(Vec<u8>, Vec<u8>)>>) -> (r: Option<VignetteCoeffs>)
    ensures
        (match r {
            Some(v) => Some(v@),
            None => None,
        }) == vignetting_of(attr_views(attrs@)),
{
    let k1 = find_attr(attrs, "k1", true);
    let k2 = find_attr(attrs, "k2", true);
    let k3 = find_attr(attrs, "k3", true);
    match (k1, k2, k3) {
        (Some(k1), Some(k2), Some(k3)) => Some(VignetteCoeffs { k1: latin1_text(&k1), k2: latin1_text(&k2), k3: latin1_text(&k3) }),
        _ => None,
    }
}

/// The profiles of a Lensfun XML database, in document order.
pub fn parse_lensfun_xml(xml: &str) -> (profiles: Vec<LensProfile>)
    ensures
        profiles@.map_values(|r: LensProfile| r@) == lens_scan(lensfun_xml_events(xml@)).profiles,
{
    let events = read_lensfun_xml_events(xml);
    lens_profiles_from_events(&events)
}

/// The profiles that the events describe.
pub fn lens_profiles_from_events(events: &Vec<LensXmlEvent>) -> (profiles: Vec<LensProfile>)
    ensures
        profiles@.map_values(|r: LensProfile| r@) == lens_scan(events@.map_values(|e: LensXmlEvent| e@)).profiles,
{
    let ghost evs = events@.map_values(|e: LensXmlEvent| e@);
    let mut profiles: Vec<LensProfile> = Vec::new();
    let mut current: Option<LensProfile> = None;
    let mut in_lens = false;
    let mut in_calibration = false;
    let mut element: Vec<u8> = Vec::new();
    for i in 0..events.len()
        invariant
            evs == events@.map_values(|e: LensXmlEvent| e@),
            ({
                let st = lens_scan(evs.subrange(0, i as int));
                &&& profiles@.map_values(|r: LensProfile| r@) == st.profiles
                &&& (match current {
                    Some(r) => Some(r@),
                    None => None,
                }) == st.current
                &&& in_lens == st.in_lens
                &&& in_calibration == st.in_calibration
                &&& element@ == st.element
            }),
    {
        proof {
            assert(evs.subrange(0, i + 1).drop_last() =~= evs.subrange(0, i as int));
            assert(evs.subrange(0, i + 1).last() == events@[i as int]@);
        }
        match &events[i] {
            XmlStart(name) => {
                if bytes_are(name, "lens") {
                    in_lens = true;
                    current = Some(LensProfile {
                        maker: String::new(),
                        model: String::new(),
                        mount: String::new(),
                        distortion: None,
                        vignetting: None,
                        tca: None,
                    });
                } else if bytes_are(name, "calibration") && in_lens {
                    in_calibration = true;
                } else if (bytes_are(name, "maker") || bytes_are(name, "model") || bytes_are(name, "mount")) && in_lens {
                    element = copy_bytes(name);
                }
            },
            XmlText(text) => {
                if in_lens {
                    let mut cur = None;
                    std::mem::swap(&mut cur, &mut current);
                    if let Some(mut r) = cur {
                        if bytes_are(&element, "maker") && r.maker.unicode_len() == 0 {
                            r.maker = copy_text(text);
                        } else if bytes_are(&element, "model") && r.model.unicode_len() == 0 {
                            r.model = copy_text(text);
                        } else if bytes_are(&element, "mount") && r.mount.unicode_len() == 0 {
                            r.mount = copy_text(text);
                        }
                        current = Some(r);
                    }
                    element = Vec::new();
                }
            },
            XmlEmpty(name, attrs) => {
                if in_calibration {
                    let mut cur = None;
                    std::mem::swap(&mut cur, &mut current);
                    if let Some(mut r) = cur {
                        if bytes_are(name, "distortion") && r.distortion.is_none() {
                            r.distortion = distortion_from(attrs);
                        } else if bytes_are(name, "vignetting") && r.vignetting.is_none() {
                            r.vignetting = vignetting_from(attrs);
                        } else if bytes_are(name, "tca") && r.tca.is_none() {
                            r.tca = Some(TcaCoeffs {
                                vr: opt_latin1_text(find_attr(attrs, "vr", true)),
                                vb: opt_latin1_text(find_attr(attrs, "vb", true)),
                            });
                        }
                        current = Some(r);
                    }
                }
            },
            XmlEnd(name) => {
                if bytes_are(name, "lens") {
                    let mut cur = None;
                    std::mem::swap(&mut cur, &mut current);
                    if let Some(r) = cur {
                        let ghost before = profiles@;
                        profiles.push(r);
                        assert(profiles@.map_values(|x: LensProfile| x@) =~= before.map_values(|x: LensProfile| x@).push(
                            profiles@[profiles@.len() - 1]@,
                        ));
                    }
                    in_lens = false;
                    in_calibration = false;
                } else if bytes_are(name, "calibration") {
                    in_calibration = false;
                }
            },
            XmlOther => {},
        }
    }
    assert(evs.subrange(0, evs.len() as int) =~= evs);
    profiles
}

/// `needle` occurs in `hay`.
pub open spec fn contains_text(hay: Seq<char>, needle: Seq<char>) -> bool {
    exists|i: int| 0 <= i <= hay.len() - needle.len() && #[trigger] hay.subrange(i, i + needle.len()) == needle
}

fn window_equals(hay: &[char], at: usize, needle: &[char]) -> (r: bool)
    requires
        at + needle@.len() <= hay@.len(),
    ensures
        r == (hay@.subrange(at as int, at + needle@.len()) == needle@),
{
    let hay_len = hay.len();
    let mut j: usize = 0;
    while j < needle.len()
        invariant
            hay_len == hay@.len(),
            at + needle@.len() <= hay@.len(),
            j <= needle@.len(),
            hay@.subrange(at as int, at + j) == needle@.subrange(0, j as int),
        decreases needle.len() - j,
    {
        if hay[at + j] != needle[j] {
            assert(hay@.subrange(at as int, at + needle@.len())[j as int] != needle@[j as int]);
            return false;
        }
        assert(hay@.subrange(at as int, at + j + 1) =~= hay@.subrange(at as int, at + j).push(hay@[at + j]));
        assert(needle@.subrange(0, j + 1) =~= needle@.subrange(0, j as int).push(needle@[j as int]));
        j = j + 1;
    }
    assert(needle@.subrange(0, needle@.len() as int) =~= needle@);
    true
}

fn contains_chars(hay: &[char], needle: &[char]) -> (r: bool)
    ensures
        r == contains_text(hay@, needle@),
{
    if needle.len() > hay.len() {
        return false;
    }
    let last = hay.len() - needle.len();
    let mut i: usize = 0;
    loop
        invariant
            needle@.len() <= hay@.len(),
            last == hay@.len() - needle@.len(),
            i <= last,
            forall|k: int| 0 <= k < i ==> #[trigger] hay@.subrange(k, k + needle@.len()) != needle@,
        decreases last - i,
    {
        if window_equals(hay, i, needle) {
            return true;
        }
        if i == last {
            return false;
        }
        i = i + 1;
    }
}

/// A profile matches when its maker and model, lowercased, contain the
/// lowercased maker and model asked for.
pub open spec fn lens_matches(r: LensProfileView, maker: Seq<char>, model: Seq<char>) -> bool {
    contains_text(lowercased(r.maker), lowercased(maker)) && contains_text(lowercased(r.model), lowercased(model))
}

/// The database of lens profiles.
pub struct LensDatabase {
    pub profiles: Vec<LensProfile>,
}

impl LensDatabase {
    /// The first profile that matches `maker` and `model` (see
    /// `lens_matches`).
    pub fn find_lens(&self, maker: &str, model: &str) -> (r: Option<&LensProfile>)
        ensures
            match r {
                Some(p) => exists|i: int|
                    0 <= i < self.profiles@.len() && self.profiles@[i] == *p && lens_matches(
                        self.profiles@[i]@,
                        maker@,
                        model@,
                    ) && forall|k: int| 0 <= k < i ==> !lens_matches(#[trigger] self.profiles@[k]@, maker@, model@),
                None => forall|k: int|
                    0 <= k < self.profiles@.len() ==> !lens_matches(#[trigger] self.profiles@[k]@, maker@, model@),
            },
    {
        let maker_lower = chars_of(lowercase_text(maker).as_str());
        let model_lower = chars_of(lowercase_text(model).as_str());
        for i in 0..self.profiles.len()
            invariant
                maker_lower@ == lowercased(maker@),
                model_lower@ == lowercased(model@),
                forall|k: int| 0 <= k < i ==> !lens_matches(#[trigger] self.profiles@[k]@, maker@, model@),
        {
            let p = &self.profiles[i];
            let pm = chars_of(lowercase_text(p.maker.as_str()).as_str());
            let pl = chars_of(lowercase_text(p.model.as_str()).as_str());
            if contains_chars(&pm, &maker_lower) && contains_chars(&pl, &model_lower) {
                return Some(p);
            }
        }
        None
    }

    /// The profile picked automatically for a photo's EXIF data: the first
    /// one matching the lens maker (the camera maker when the lens maker is
    /// empty) and the lens model.
    pub fn profile_for_exif(&self, camera_make: &str, lens_make: &str, lens_model: &str) -> (r: Option<
        &LensProfile,
    >)
        ensures
            ({
                let maker = if lens_make@.len() == 0 { camera_make@ } else { lens_make@ };
                match r {
                    Some(p) => exists|i: int|
                        0 <= i < self.profiles@.len() && self.profiles@[i] == *p && lens_matches(
                            self.profiles@[i]@,
                            maker,
                            lens_model@,
                        ) && forall|k: int|
                            0 <= k < i ==> !lens_matches(#[trigger] self.profiles@[k]@, maker, lens_model@),
                    None => forall|k: int|
                        0 <= k < self.profiles@.len() ==> !lens_matches(
                            #[trigger] self.profiles@[k]@,
                            maker,
                            lens_model@,
                        ),
                }
            }),
    {
        let maker = if lens_make.unicode_len() == 0 {
            camera_make
        } else {
            lens_make
        };
        self.find_lens(maker, lens_model)
    }

    /// The profile whose label ("maker model") is `label`, the first such.
    pub fn profile_labeled(&self, label: &str) -> (r: Option<&LensProfile>)
        ensures
            match r {
                Some(p) => exists|i: int|
                    0 <= i < self.profiles@.len() && self.profiles@[i] == *p && profile_label(
                        self.profiles@[i]@,
                    ) == label@ && forall|k: int|
                        0 <= k < i ==> profile_label(#[trigger] self.profiles@[k]@) != label@,
                None => forall|k: int|
                    0 <= k < self.profiles@.len() ==> profile_label(#[trigger] self.profiles@[k]@) != label@,
            },
    {
        let wanted = chars_of(label);
        for i in 0..self.profiles.len()
            invariant
                wanted@ == label@,
                forall|k: int| 0 <= k < i ==> profile_label(#[trigger] self.profiles@[k]@) != label@,
        {
            let p = &self.profiles[i];
            let mut text = chars_of(p.maker.as_str());
            text.push(' ');
            let model = chars_of(p.model.as_str());
            extend_chars(&mut text, &model);
            assert(text@ =~= profile_label(self.profiles@[i as int]@));
            if chars_equal(&text, &wanted) {
                return Some(p);
            }
        }
        None
    }
}

/// How a profile is labelled in the lens chooser: maker, a space, model.
pub open spec fn profile_label(r: LensProfileView) -> Seq<char> {
    r.maker + seq![' '] + r.model
}

/// What the lens chooser's entry selects.
#[derive(Debug, Clone, Copy, PartialEq, Eq, Structural)]
pub enum LensChoice {
    /// "Auto": the profile follows the photo's EXIF data.
    Auto,
    /// "None": no profile.
    NoProfile,
    /// Any other entry: the profile with that label.
    Labeled,
}

pub open spec fn lens_choice_of(entry: Seq<char>) -> LensChoice {
    if entry == seq!['A', 'u', 't', 'o'] {
        LensChoice::Auto
    } else if entry == seq!['N', 'o', 'n', 'e'] {
        LensChoice::NoProfile
    } else {
        LensChoice::Labeled
    }
}

pub fn lens_choice(entry: &str) -> (r: LensChoice)
    ensures
        r == lens_choice_of(entry@),
{
    let e = chars_of(entry);
    let auto = vec!['A', 'u', 't', 'o'];
    let none = vec!['N', 'o', 'n', 'e'];
    assert(auto@ =~= seq!['A', 'u', 't', 'o']);
    assert(none@ =~= seq!['N', 'o', 'n', 'e']);
    if chars_equal(&e, &auto) {
        LensChoice::Auto
    } else if chars_equal(&e, &none) {
        LensChoice::NoProfile
    } else {
        LensChoice::Labeled
    }
}

} // verus!
