//! GStreamer: how controls map onto source-element properties and V4L2
//! control names, the staged `extra-controls` set, sample-caps decoding,
//! URL detection, device selection, and the decisions of the capture
//! device between pipeline starts.
use vstd::prelude::*;

use crate::keyorder::{
    lemma_str_lt_asymmetric, lemma_str_lt_irreflexive, lemma_str_lt_total, lemma_str_lt_transitive,
    str_less, str_lt,
};
use crate::text::{i64_text, signed_decimal, str_equal};
use crate::types::{
    is_open_stream_error, is_structure_error, spec_control_name, spec_setter_text, ApiBackend, CameraControl,
    CameraFormat, ControlValueDescription, ControlValueSetter, FrameFormat, KnownCameraControl,
    KnownCameraControlFlag, NokhwaError, Resolution,
};

verus! {

/// Where a control lives on a GStreamer source: a live element property,
/// or a V4L2 control name written through the `extra-controls` structure.
#[derive(Clone, Copy, Debug, PartialEq, Eq)]
pub enum GstControlHandle {
    Property(&'static str),
    V4l2Cid(&'static str),
}

/// Whether a standard control is a live property of the source element
/// (brightness, contrast, hue, saturation) rather than a V4L2 control name
/// written through `extra-controls`.
pub open spec fn spec_handle_is_live(kcc: KnownCameraControl) -> bool {
    match kcc {
        KnownCameraControl::Brightness | KnownCameraControl::Contrast | KnownCameraControl::Hue
        | KnownCameraControl::Saturation => true,
        _ => false,
    }
}

/// The GStreamer name of a standard control.
pub open spec fn spec_handle_name(kcc: KnownCameraControl) -> Seq<char> {
    match kcc {
        KnownCameraControl::Brightness => "brightness"@,
        KnownCameraControl::Contrast => "contrast"@,
        KnownCameraControl::Hue => "hue"@,
        KnownCameraControl::Saturation => "saturation"@,
        KnownCameraControl::Sharpness => "sharpness"@,
        KnownCameraControl::Gamma => "gamma"@,
        KnownCameraControl::WhiteBalance => "white_balance_temperature"@,
        KnownCameraControl::BacklightComp => "backlight_compensation"@,
        KnownCameraControl::Gain => "gain"@,
        KnownCameraControl::Pan => "pan_absolute"@,
        KnownCameraControl::Tilt => "tilt_absolute"@,
        KnownCameraControl::Zoom => "zoom_absolute"@,
        KnownCameraControl::Exposure => "exposure_time_absolute"@,
        KnownCameraControl::Iris => "iris_absolute"@,
        KnownCameraControl::Focus => "focus_absolute"@,
        KnownCameraControl::Other(_) => Seq::empty(),
    }
}

/// Is `h` the handle of `kcc`: brightness, contrast, hue and saturation
/// are live properties of the same name; the other standard controls are
/// V4L2 control names; `Other` has no handle.
pub open spec fn spec_control_handle(kcc: KnownCameraControl, h: Option<GstControlHandle>) -> bool {
    match kcc {
        KnownCameraControl::Other(_) => h is None,
        _ => if spec_handle_is_live(kcc) {
            h matches Some(GstControlHandle::Property(n)) && n@ == spec_handle_name(kcc)
        } else {
            h matches Some(GstControlHandle::V4l2Cid(n)) && n@ == spec_handle_name(kcc)
        },
    }
}

/// The GStreamer name a control is reached under.
pub fn control_handle(kcc: KnownCameraControl) -> (h: Option<GstControlHandle>)
    ensures
        spec_control_handle(kcc, h),
{
    let h = match kcc {
        KnownCameraControl::Brightness => GstControlHandle::Property("brightness"),
        KnownCameraControl::Contrast => GstControlHandle::Property("contrast"),
        KnownCameraControl::Hue => GstControlHandle::Property("hue"),
        KnownCameraControl::Saturation => GstControlHandle::Property("saturation"),
        KnownCameraControl::Sharpness => GstControlHandle::V4l2Cid("sharpness"),
        KnownCameraControl::Gamma => GstControlHandle::V4l2Cid("gamma"),
        KnownCameraControl::WhiteBalance => GstControlHandle::V4l2Cid("white_balance_temperature"),
        KnownCameraControl::BacklightComp => GstControlHandle::V4l2Cid("backlight_compensation"),
        KnownCameraControl::Gain => GstControlHandle::V4l2Cid("gain"),
        KnownCameraControl::Pan => GstControlHandle::V4l2Cid("pan_absolute"),
        KnownCameraControl::Tilt => GstControlHandle::V4l2Cid("tilt_absolute"),
        KnownCameraControl::Zoom => GstControlHandle::V4l2Cid("zoom_absolute"),
        KnownCameraControl::Exposure => GstControlHandle::V4l2Cid("exposure_time_absolute"),
        KnownCameraControl::Iris => GstControlHandle::V4l2Cid("iris_absolute"),
        KnownCameraControl::Focus => GstControlHandle::V4l2Cid("focus_absolute"),
        KnownCameraControl::Other(_) => {
            return None;
        },
    };
    proof {
        reveal_strlit("brightness");
        reveal_strlit("contrast");
        reveal_strlit("hue");
        reveal_strlit("saturation");
        reveal_strlit("sharpness");
        reveal_strlit("gamma");
        reveal_strlit("white_balance_temperature");
        reveal_strlit("backlight_compensation");
        reveal_strlit("gain");
        reveal_strlit("pan_absolute");
        reveal_strlit("tilt_absolute");
        reveal_strlit("zoom_absolute");
        reveal_strlit("exposure_time_absolute");
        reveal_strlit("iris_absolute");
        reveal_strlit("focus_absolute");
    }
    Some(h)
}

/// The control a live `v4l2src` property stands for: exactly the four
/// names `brightness`, `contrast`, `hue`, `saturation`, compared with
/// case.
pub open spec fn spec_known_from_property_name(name: Seq<char>) -> Option<KnownCameraControl> {
    if name == "brightness"@ {
        Some(KnownCameraControl::Brightness)
    } else if name == "contrast"@ {
        Some(KnownCameraControl::Contrast)
    } else if name == "hue"@ {
        Some(KnownCameraControl::Hue)
    } else if name == "saturation"@ {
        Some(KnownCameraControl::Saturation)
    } else {
        None
    }
}

/// The control a property name stands for, if any.
pub fn known_from_property_name(name: &str) -> (r: Option<KnownCameraControl>)
    ensures
        r == spec_known_from_property_name(name@),
{
    if str_equal(name, "brightness") {
        Some(KnownCameraControl::Brightness)
    } else if str_equal(name, "contrast") {
        Some(KnownCameraControl::Contrast)
    } else if str_equal(name, "hue") {
        Some(KnownCameraControl::Hue)
    } else if str_equal(name, "saturation") {
        Some(KnownCameraControl::Saturation)
    } else {
        None
    }
}

/// Looking a control's live-property name back up gives the control.
pub proof fn lemma_live_property_round_trip(kcc: KnownCameraControl, h: Option<GstControlHandle>)
    requires
        spec_control_handle(kcc, h),
        h matches Some(GstControlHandle::Property(_)),
    ensures
        spec_known_from_property_name(h->0->Property_0@) == Some(kcc),
{
    reveal_strlit("brightness");
    reveal_strlit("contrast");
    reveal_strlit("hue");
    reveal_strlit("saturation");
    assert("brightness"@.len() == 10 && "contrast"@.len() == 8 && "hue"@.len() == 3);
    assert("saturation"@.len() == 10 && "brightness"@[0] != "saturation"@[0]);
}

/// Every control has the handle of the table: brightness, contrast, hue and
/// saturation are live properties whose names look back up to the same
/// control; `Other` has none; every other control is the V4L2 control of
/// its `spec_handle_name` (`sharpness`, `gamma`,
/// `white_balance_temperature`, `backlight_compensation`, `gain`,
/// `pan_absolute`, `tilt_absolute`, `zoom_absolute`,
/// `exposure_time_absolute`, `iris_absolute`, `focus_absolute`).
pub proof fn lemma_control_handle_table(kcc: KnownCameraControl, h: Option<GstControlHandle>)
    requires
        spec_control_handle(kcc, h),
    ensures
        kcc is Other ==> h is None,
        spec_handle_is_live(kcc) ==> (h matches Some(GstControlHandle::Property(n))
            && spec_known_from_property_name(n@) == Some(kcc)),
        !(kcc is Other) && !spec_handle_is_live(kcc) ==> (h matches Some(
            GstControlHandle::V4l2Cid(n),
        ) && n@ == spec_handle_name(kcc) && spec_known_from_property_name(n@) is None),
{
    reveal_strlit("brightness");
    reveal_strlit("contrast");
    reveal_strlit("hue");
    reveal_strlit("saturation");
    reveal_strlit("sharpness");
    reveal_strlit("gamma");
    reveal_strlit("white_balance_temperature");
    reveal_strlit("backlight_compensation");
    reveal_strlit("gain");
    reveal_strlit("pan_absolute");
    reveal_strlit("tilt_absolute");
    reveal_strlit("zoom_absolute");
    reveal_strlit("exposure_time_absolute");
    reveal_strlit("iris_absolute");
    reveal_strlit("focus_absolute");
    if spec_handle_is_live(kcc) {
        lemma_live_property_round_trip(kcc, h);
    }
    if !(kcc is Other) && !spec_handle_is_live(kcc) {
        let n = spec_handle_name(kcc);
        assert(n != "brightness"@ && n != "contrast"@ && n != "hue"@ && n != "saturation"@) by {
            assert("brightness"@[0] == 'b' && "contrast"@[0] == 'c' && "hue"@[0] == 'h'
                && "saturation"@[0] == 's');
            assert("brightness"@.len() == 10 && "contrast"@.len() == 8 && "hue"@.len() == 3
                && "saturation"@.len() == 10);
        }
    }
}

/// A `SetPropertyError` with these three fields.
pub open spec fn is_set_error(e: NokhwaError, property: Seq<char>, value: Seq<char>, error: Seq<
    char,
>) -> bool {
    e matches NokhwaError::SetPropertyError { property: p, value: v, error: r } && p@ == property
        && v@ == value && r@ == error
}

/// The `i32` a live property is set to: an integer that fits, or a
/// boolean as 0 / 1. An integer beyond `i32` is refused with its own
/// digits; any other setter is refused with its rendering.
pub open spec fn spec_live_property_value(
    property: Seq<char>,
    value: ControlValueSetter,
    r: Result<i32, NokhwaError>,
) -> bool {
    match value {
        ControlValueSetter::Integer(i) => if i32::MIN <= i <= i32::MAX {
            r == Ok::<i32, NokhwaError>(i as i32)
        } else {
            r matches Err(e) && is_set_error(
                e,
                property,
                signed_decimal(i as int),
                "i64 value exceeds i32 range expected by v4l2src property"@,
            )
        },
        ControlValueSetter::Boolean(b) => r == Ok::<i32, NokhwaError>(if b {
            1i32
        } else {
            0i32
        }),
        _ => r matches Err(e) && is_set_error(
            e,
            property,
            spec_setter_text(value),
            "unsupported ControlValueSetter variant for live property"@,
        ),
    }
}

/// Decide the value written to a live property.
pub fn live_property_value(property: &str, value: &ControlValueSetter) -> (r: Result<
    i32,
    NokhwaError,
>)
    ensures
        spec_live_property_value(property@, *value, r),
{
    match value {
        ControlValueSetter::Integer(i) => {
            if i32::MIN as i64 <= *i && *i <= i32::MAX as i64 {
                Ok(*i as i32)
            } else {
                Err(
                    NokhwaError::SetPropertyError {
                        property: property.to_string(),
                        value: i64_text(*i),
                        error: String::from_str(
                            "i64 value exceeds i32 range expected by v4l2src property",
                        ),
                    },
                )
            }
        },
        ControlValueSetter::Boolean(b) => Ok(
            if *b {
                1
            } else {
                0
            },
        ),
        _ => Err(
            NokhwaError::SetPropertyError {
                property: property.to_string(),
                value: value.text(),
                error: String::from_str("unsupported ControlValueSetter variant for live property"),
            },
        ),
    }
}

/// The integer a V4L2 control name is staged with: an integer as it is, a
/// boolean as 0 / 1; any other setter is refused.
pub open spec fn spec_v4l2_cid_value(
    cid: Seq<char>,
    value: ControlValueSetter,
    r: Result<i64, NokhwaError>,
) -> bool {
    match value {
        ControlValueSetter::Integer(i) => r == Ok::<i64, NokhwaError>(i),
        ControlValueSetter::Boolean(b) => r == Ok::<i64, NokhwaError>(if b {
            1i64
        } else {
            0i64
        }),
        _ => r matches Err(e) && is_set_error(
            e,
            cid,
            spec_setter_text(value),
            "unsupported ControlValueSetter variant for V4L2 CID"@,
        ),
    }
}

/// The integer payload a setter gives a V4L2 control, if it has one: an
/// integer as it is, a boolean as 0 or 1.
pub open spec fn cid_payload(value: ControlValueSetter) -> Option<i64> {
    match value {
        ControlValueSetter::Integer(i) => Some(i),
        ControlValueSetter::Boolean(b) => Some(if b {
            1i64
        } else {
            0i64
        }),
        _ => None,
    }
}

/// Translate a setter into the integer payload of a V4L2 control.
pub fn v4l2_cid_value(cid: &str, value: &ControlValueSetter) -> (r: Result<i64, NokhwaError>)
    ensures
        spec_v4l2_cid_value(cid@, *value, r),
{
    match value {
        ControlValueSetter::Integer(i) => Ok(*i),
        ControlValueSetter::Boolean(b) => Ok(
            if *b {
                1
            } else {
                0
            },
        ),
        _ => Err(
            NokhwaError::SetPropertyError {
                property: cid.to_string(),
                value: value.text(),
                error: String::from_str("unsupported ControlValueSetter variant for V4L2 CID"),
            },
        ),
    }
}


/// The map a list of (key, value) pairs builds when inserted in order.
pub open spec fn pairs_map<V>(s: Seq<(Seq<char>, V)>) -> Map<Seq<char>, V>
    decreases s.len(),
{
    if s.len() == 0 {
        Map::empty()
    } else {
        pairs_map(s.drop_last()).insert(s.last().0, s.last().1)
    }
}

/// No key occurs twice in `s`.
pub open spec fn unique_keys<V>(s: Seq<(Seq<char>, V)>) -> bool {
    forall|i: int, j: int| 0 <= i < j < s.len() ==> (#[trigger] s[i]).0 != (#[trigger] s[j]).0
}

/// Some pair of `s` has key `k`.
pub open spec fn has_pair_key<V>(s: Seq<(Seq<char>, V)>, k: Seq<char>) -> bool {
    exists|i: int| 0 <= i < s.len() && (#[trigger] s[i]).0 == k
}

proof fn lemma_pairs_map<V>(s: Seq<(Seq<char>, V)>)
    requires
        unique_keys(s),
    ensures
        forall|k: Seq<char>|
            #![trigger pairs_map(s).contains_key(k)]
            #![trigger has_pair_key(s, k)]
            pairs_map(s).contains_key(k) <==> has_pair_key(s, k),
        forall|i: int| 0 <= i < s.len() ==> pairs_map(s)[(#[trigger] s[i]).0] == s[i].1,
    decreases s.len(),
{
    if s.len() > 0 {
        let t = s.drop_last();
        assert(unique_keys(t));
        lemma_pairs_map(t);
        assert forall|k: Seq<char>| pairs_map(s).contains_key(k) <==> has_pair_key(s, k) by {
            if has_pair_key(t, k) {
                let i = choose|i: int| 0 <= i < t.len() && t[i].0 == k;
                assert(s[i].0 == k);
            }
            if has_pair_key(s, k) {
                let i = choose|i: int| 0 <= i < s.len() && s[i].0 == k;
                if i < s.len() - 1 {
                    assert(t[i].0 == k);
                }
            }
        }
        assert forall|i: int| 0 <= i < s.len() implies pairs_map(s)[(#[trigger] s[i]).0]
            == s[i].1 by {
            if i < s.len() - 1 {
                assert(t[i] == s[i]);
                assert(s[i].0 != s[s.len() - 1].0);
            }
        }
    }
}

proof fn lemma_pairs_map_narrow(s: Seq<(Seq<char>, i64)>)
    requires
        forall|i: int| 0 <= i < s.len() ==> i32::MIN <= (#[trigger] s[i]).1 <= i32::MAX,
    ensures
        pairs_map(s.map_values(|p: (Seq<char>, i64)| (p.0, p.1 as i32))) == pairs_map(
            s,
        ).map_values(|v: i64| v as i32),
    decreases s.len(),
{
    let f = |p: (Seq<char>, i64)| (p.0, p.1 as i32);
    if s.len() == 0 {
        assert(pairs_map(s.map_values(f)) =~= pairs_map(s).map_values(|v: i64| v as i32));
    } else {
        let t = s.drop_last();
        assert forall|i: int| 0 <= i < t.len() implies i32::MIN <= (#[trigger] t[i]).1
            <= i32::MAX by {
            assert(t[i] == s[i]);
        }
        lemma_pairs_map_narrow(t);
        assert(s.map_values(f).drop_last() =~= t.map_values(f));
        assert(pairs_map(s.map_values(f)) =~= pairs_map(s).map_values(|v: i64| v as i32));
    }
}

/// Keys strictly increase along `s`.
pub open spec fn pairs_sorted<V>(s: Seq<(Seq<char>, V)>) -> bool {
    forall|i: int, j: int| 0 <= i < j < s.len() ==> str_lt(#[trigger] s[i].0, #[trigger] s[j].0)
}

proof fn lemma_sorted_unique<V>(s: Seq<(Seq<char>, V)>)
    requires
        pairs_sorted(s),
    ensures
        unique_keys(s),
{
    assert forall|i: int, j: int| 0 <= i < j < s.len() implies (#[trigger] s[i]).0 != (
    #[trigger] s[j]).0 by {
        lemma_str_lt_irreflexive(s[i].0);
    }
}

/// V4L2 control values staged for the next pipeline start, kept in
/// ascending name order; a later value for a name replaces the earlier one.
pub struct PendingControls {
    entries: Vec<(String, i64)>,
}

impl PendingControls {
    /// The staged (name, value) pairs in ascending name order.
    pub closed spec fn pairs(self) -> Seq<(Seq<char>, i64)> {
        self.entries@.map_values(|e: (String, i64)| (e.0@, e.1))
    }

    #[verifier::type_invariant]
    spec fn inv(self) -> bool {
        pairs_sorted(self.pairs())
    }
}

impl View for PendingControls {
    type V = Map<Seq<char>, i64>;

    closed spec fn view(&self) -> Map<Seq<char>, i64> {
        pairs_map(self.pairs())
    }
}

/// The error for a staged value that does not fit a V4L2 control.
pub open spec fn is_extra_control_error(e: NokhwaError, name: Seq<char>, value: i64) -> bool {
    is_set_error(
        e,
        name,
        signed_decimal(value as int),
        "i64 value exceeds i32 range expected by v4l2src extra-controls"@,
    )
}

pub open spec fn fits_i32(v: i64) -> bool {
    i32::MIN <= v <= i32::MAX
}

/// Every staged value fits a V4L2 control.
pub open spec fn all_fit(m: Map<Seq<char>, i64>) -> bool {
    forall|k: Seq<char>| #[trigger] m.contains_key(k) ==> fits_i32(m[k])
}

/// The (name, value) pairs of `extra-controls` fields.
pub open spec fn field_pairs(f: Seq<(String, i32)>) -> Seq<(Seq<char>, i32)> {
    f.map_values(|x: (String, i32)| (x.0@, x.1))
}

/// `extra` is the `extra-controls` field list for the staged values `m`:
/// none when nothing is staged, else one field per staged control in
/// ascending name order, its value narrowed to `i32`.
pub open spec fn is_extra_for(m: Map<Seq<char>, i64>, extra: Option<Vec<(String, i32)>>) -> bool {
    match extra {
        None => m == Map::<Seq<char>, i64>::empty(),
        Some(f) => {
            &&& m != Map::<Seq<char>, i64>::empty()
            &&& all_fit(m)
            &&& pairs_sorted(field_pairs(f@))
            &&& pairs_map(field_pairs(f@)) == m.map_values(|v: i64| v as i32)
        },
    }
}

/// `e` refuses the staged values `m`: it names the first control, in name
/// order, whose value does not fit.
pub open spec fn is_extra_refusal(m: Map<Seq<char>, i64>, e: NokhwaError) -> bool {
    exists|k: Seq<char>|
        #[trigger] m.contains_key(k) && !fits_i32(m[k]) && is_extra_control_error(e, k, m[k])
            && forall|k2: Seq<char>|
            #[trigger] m.contains_key(k2) && !fits_i32(m[k2]) && k2 != k ==> str_lt(k, k2)
}

impl PendingControls {
    pub fn new() -> (p: PendingControls)
        ensures
            p@ == Map::<Seq<char>, i64>::empty(),
    {
        let p = PendingControls { entries: Vec::new() };
        assert(p.pairs() =~= Seq::<(Seq<char>, i64)>::empty());
        p
    }

    /// Whether nothing is staged.
    pub fn is_empty(&self) -> (r: bool)
        ensures
            r <==> self@ == Map::<Seq<char>, i64>::empty(),
    {
        proof {
            use_type_invariant(self);
            lemma_sorted_unique(self.pairs());
            lemma_pairs_map(self.pairs());
            if self.entries@.len() > 0 {
                assert(self@.contains_key(self.pairs()[0].0));
            } else {
                assert(self.pairs() =~= Seq::<(Seq<char>, i64)>::empty());
            }
        }
        self.entries.len() == 0
    }

    /// Stage `value` for control `name`, replacing what was staged for it.
    pub fn insert(&mut self, name: String, value: i64)
        ensures
            final(self)@ == old(self)@.insert(name@, value),
    {
        proof {
            use_type_invariant(&*self);
        }
        let ghost before = self.pairs();
        proof {
            lemma_sorted_unique(before);
            lemma_pairs_map(before);
        }
        let mut v: Vec<(String, i64)> = Vec::new();
        std::mem::swap(&mut v, &mut self.entries);
        let ghost f = |e: (String, i64)| (e.0@, e.1);
        assert(v@.map_values(f) == before);
        let mut i: usize = 0;
        while i < v.len() && str_less(v[i].0.as_str(), name.as_str())
            invariant
                i <= v@.len(),
                v@.map_values(f) == before,
                f == (|e: (String, i64)| (e.0@, e.1)),
                forall|k: int| 0 <= k < i ==> str_lt((#[trigger] before[k]).0, name@),
            decreases v@.len() - i,
        {
            proof {
                assert(before[i as int] == f(v@[i as int]));
            }
            i = i + 1;
        }
        proof {
            if i < v@.len() {
                assert(before[i as int] == f(v@[i as int]));
            }
        }
        if i < v.len() && !str_less(name.as_str(), v[i].0.as_str()) {
            proof {
                lemma_str_lt_total(before[i as int].0, name@);
            }
            let ghost old_pairs = before;
            v.set(i, (name, value));
            let ghost after = v@.map_values(f);
            proof {
                assert(after =~= old_pairs.update(i as int, (name@, value)));
                assert(pairs_sorted(after)) by {
                    assert forall|a: int, b: int| 0 <= a < b < after.len() implies str_lt(
                        #[trigger] after[a].0,
                        #[trigger] after[b].0,
                    ) by {
                        assert(str_lt(old_pairs[a].0, old_pairs[b].0));
                    }
                }
                lemma_sorted_unique(after);
                lemma_pairs_map(after);
                assert(pairs_map(after) =~= pairs_map(old_pairs).insert(name@, value)) by {
                    assert forall|k: Seq<char>| #[trigger]
                        pairs_map(after).contains_key(k) <==> pairs_map(old_pairs).insert(
                            name@,
                            value,
                        ).contains_key(k) by {
                        if has_pair_key(old_pairs, k) {
                            let a = choose|a: int| 0 <= a < old_pairs.len() && old_pairs[a].0 == k;
                            assert(after[a].0 == k);
                        }
                        if has_pair_key(after, k) {
                            let a = choose|a: int| 0 <= a < after.len() && after[a].0 == k;
                            assert(old_pairs[a].0 == k);
                        }
                        if k == name@ {
                            assert(after[i as int].0 == k);
                        }
                    }
                    assert forall|k: Seq<char>| #[trigger]
                        pairs_map(after).contains_key(k) implies pairs_map(after)[k] == pairs_map(
                        old_pairs,
                    ).insert(name@, value)[k] by {
                        let a = choose|a: int| 0 <= a < after.len() && after[a].0 == k;
                        if a != i {
                            assert(old_pairs[a].0 == k);
                        }
                    }
                }
            }
            self.entries = v;
        } else {
            proof {
                assert forall|k: int| i <= k < before.len() implies str_lt(
                    name@,
                    (#[trigger] before[k]).0,
                ) by {
                    lemma_str_lt_total(before[i as int].0, name@);
                    if k > i {
                        lemma_str_lt_transitive(name@, before[i as int].0, before[k].0);
                    }
                }
                assert forall|k: int| 0 <= k < before.len() implies (#[trigger] before[k]).0
                    != name@ by {
                    lemma_str_lt_irreflexive(name@);
                }
            }
            v.insert(i, (name, value));
            let ghost after = v@.map_values(f);
            proof {
                assert(after =~= before.insert(i as int, (name@, value)));
                assert(pairs_sorted(after)) by {
                    assert forall|a: int, b: int| 0 <= a < b < after.len() implies str_lt(
                        #[trigger] after[a].0,
                        #[trigger] after[b].0,
                    ) by {
                        if a < i && b == i {
                        } else if a < i && b > i {
                            assert(after[b] == before[b - 1]);
                            assert(after[a] == before[a]);
                            assert(str_lt(before[a].0, before[b - 1].0));
                        } else if a == i {
                            assert(after[b] == before[b - 1]);
                        } else if a > i {
                            assert(after[a] == before[a - 1]);
                            assert(after[b] == before[b - 1]);
                            assert(str_lt(before[a - 1].0, before[b - 1].0));
                        } else {
                            assert(after[a] == before[a]);
                            assert(after[b] == before[b]);
                            assert(str_lt(before[a].0, before[b].0));
                        }
                    }
                }
                lemma_sorted_unique(after);
                lemma_pairs_map(after);
                assert(pairs_map(after) =~= pairs_map(before).insert(name@, value)) by {
                    assert forall|k: Seq<char>| #[trigger]
                        pairs_map(after).contains_key(k) <==> pairs_map(before).insert(
                            name@,
                            value,
                        ).contains_key(k) by {
                        if has_pair_key(before, k) {
                            let a = choose|a: int| 0 <= a < before.len() && before[a].0 == k;
                            if a < i {
                                assert(after[a].0 == k);
                            } else {
                                assert(after[a + 1].0 == k);
                            }
                        }
                        if k == name@ {
                            assert(after[i as int].0 == k);
                        }
                        if has_pair_key(after, k) {
                            let a = choose|a: int| 0 <= a < after.len() && after[a].0 == k;
                            if a < i {
                                assert(before[a].0 == k);
                            } else if a > i {
                                assert(before[a - 1].0 == k);
                            }
                        }
                    }
                    assert forall|k: Seq<char>| #[trigger]
                        pairs_map(after).contains_key(k) implies pairs_map(after)[k] == pairs_map(
                        before,
                    ).insert(name@, value)[k] by {
                        let a = choose|a: int| 0 <= a < after.len() && after[a].0 == k;
                        if a < i {
                            assert(before[a].0 == k);
                        } else if a > i {
                            assert(before[a - 1].0 == k);
                        }
                    }
                }
            }
            self.entries = v;
        }
    }

    /// The `extra-controls` fields for the staged values: nothing when
    /// nothing is staged, else one field per staged control in ascending
    /// name order, its value narrowed to `i32`. A value beyond `i32` is
    /// refused, naming the first such control in name order.
    pub fn build_extra_controls(&self) -> (r: Result<Option<Vec<(String, i32)>>, NokhwaError>)
        ensures
            r is Err <==> !all_fit(self@),
            match r {
                Ok(extra) => is_extra_for(self@, extra),
                Err(e) => is_extra_refusal(self@, e),
            },
    {
        proof {
            use_type_invariant(self);
        }
        let ghost s = self.pairs();
        proof {
            lemma_sorted_unique(s);
            lemma_pairs_map(s);
        }
        if self.entries.len() == 0 {
            assert(s =~= Seq::<(Seq<char>, i64)>::empty());
            assert(self@ =~= Map::<Seq<char>, i64>::empty());
            return Ok(None);
        }
        proof {
            assert(self@.contains_key(s[0].0));
        }
        let mut out: Vec<(String, i32)> = Vec::new();
        let mut i: usize = 0;
        while i < self.entries.len()
            invariant
                i <= s.len(),
                s == self.pairs(),
                s.len() == self.entries@.len(),
                pairs_sorted(s),
                unique_keys(s),
                out@.len() == i,
                forall|k: int|
                    0 <= k < i ==> fits_i32((#[trigger] s[k]).1) && out@[k].0@ == s[k].0
                        && out@[k].1 == s[k].1 as i32,
            decreases s.len() - i,
        {
            let (name, value) = &self.entries[i];
            proof {
                assert(s[i as int] == (name@, *value));
            }
            if i32::MIN as i64 <= *value && *value <= i32::MAX as i64 {
                out.push((name.clone(), *value as i32));
            } else {
                proof {
                    lemma_pairs_map(s);
                    assert(self@[s[i as int].0] == s[i as int].1);
                    assert(self@.contains_key(s[i as int].0));
                    assert forall|k2: Seq<char>|
                        #[trigger] self@.contains_key(k2) && !fits_i32(self@[k2]) && k2 != name@
                            implies str_lt(name@, k2) by {
                        let k = choose|k: int| 0 <= k < s.len() && s[k].0 == k2;
                        assert(self@[s[k].0] == s[k].1);
                        if k < i {
                            assert(fits_i32(s[k].1));
                        } else if k > i {
                            assert(str_lt(s[i as int].0, s[k].0));
                        }
                    }
                }
                return Err(
                    NokhwaError::SetPropertyError {
                        property: name.clone(),
                        value: i64_text(*value),
                        error: String::from_str(
                            "i64 value exceeds i32 range expected by v4l2src extra-controls",
                        ),
                    },
                );
            }
            i = i + 1;
        }
        proof {
            assert forall|k: Seq<char>| #[trigger] self@.contains_key(k) implies fits_i32(
                self@[k],
            ) by {
                let a = choose|a: int| 0 <= a < s.len() && s[a].0 == k;
                assert(self@[s[a].0] == s[a].1);
            }
            lemma_pairs_map_narrow(s);
            assert(field_pairs(out@) =~= s.map_values(
                |p: (Seq<char>, i64)| (p.0, p.1 as i32),
            ));
            assert(pairs_sorted(field_pairs(out@))) by {
                assert forall|a: int, b: int| 0 <= a < b < field_pairs(out@).len() implies str_lt(
                    #[trigger] field_pairs(out@)[a].0,
                    #[trigger] field_pairs(out@)[b].0,
                ) by {
                    assert(str_lt(s[a].0, s[b].0));
                }
            }
        }
        Ok(Some(out))
    }
}


/// What a source element reports of one of its properties; an integer
/// property also carries its range, default and current value.
#[derive(Clone, Debug)]
pub struct PropertySpec {
    pub name: String,
    pub readable: bool,
    pub writable: bool,
    pub int_param: Option<IntParam>,
}

/// Range, default and current value of an integer property.
#[derive(Clone, Copy, Debug, PartialEq, Eq, Structural)]
pub struct IntParam {
    pub minimum: i32,
    pub maximum: i32,
    pub default: i32,
    pub current: i32,
}

/// A property yields a control when its name is one of the four live
/// control names, it is both readable and writable, and it is an integer
/// property.
pub open spec fn property_yields_control(p: PropertySpec) -> bool {
    &&& spec_known_from_property_name(p.name@) is Some
    &&& p.readable
    &&& p.writable
    &&& p.int_param is Some
}

/// `c` is the control property `p` yields: named after the control, its
/// integer range with step one and the current value, flagged manual,
/// active.
pub open spec fn is_property_control(c: CameraControl, p: PropertySpec) -> bool {
    let kcc = spec_known_from_property_name(p.name@).unwrap();
    let ip = p.int_param.unwrap();
    &&& c.control == kcc
    &&& c.name@ == spec_control_name(kcc)
    &&& c.description == ControlValueDescription::IntegerRange {
        min: ip.minimum as i64,
        max: ip.maximum as i64,
        value: ip.current as i64,
        step: 1,
        default: ip.default as i64,
    }
    &&& c.flag@ == seq![KnownCameraControlFlag::Manual]
    &&& c.active
}

/// The live controls of a source element, one per property that yields
/// one, in property order; sources without such properties have none.
pub fn list_controls(props: &Vec<PropertySpec>) -> (r: Vec<CameraControl>)
    ensures
        r@.len() == props@.filter(|p: PropertySpec| property_yields_control(p)).len(),
        forall|k: int|
            0 <= k < r@.len() ==> is_property_control(
                #[trigger] r@[k],
                props@.filter(|p: PropertySpec| property_yields_control(p))[k],
            ),
{
    let ghost yields = |p: PropertySpec| property_yields_control(p);
    let mut r: Vec<CameraControl> = Vec::new();
    let mut i: usize = 0;
    while i < props.len()
        invariant
            i <= props@.len(),
            yields == (|p: PropertySpec| property_yields_control(p)),
            r@.len() == props@.take(i as int).filter(yields).len(),
            forall|k: int|
                0 <= k < r@.len() ==> is_property_control(
                    #[trigger] r@[k],
                    props@.take(i as int).filter(yields)[k],
                ),
        decreases props@.len() - i,
    {
        let ghost pre = props@.take(i as int);
        proof {
            assert(props@.take(i + 1) =~= pre.push(props@[i as int]));
            pre.lemma_filter_push(props@[i as int], yields);
        }
        let p = &props[i];
        if let Some(kcc) = known_from_property_name(p.name.as_str()) {
            if p.readable && p.writable {
                if let Some(ip) = p.int_param {
                    let mut flag: Vec<KnownCameraControlFlag> = Vec::new();
                    flag.push(KnownCameraControlFlag::Manual);
                    assert(flag@ =~= seq![KnownCameraControlFlag::Manual]);
                    r.push(
                        CameraControl {
                            control: kcc,
                            name: kcc.name(),
                            description: ControlValueDescription::IntegerRange {
                                min: ip.minimum as i64,
                                max: ip.maximum as i64,
                                value: ip.current as i64,
                                step: 1,
                                default: ip.default as i64,
                            },
                            flag,
                            active: true,
                        },
                    );
                }
            }
        }
        i = i + 1;
    }
    assert(props@.take(props@.len() as int) =~= props@);
    r
}

/// A pipeline-construction failure: `what` failed because of `why`.
pub fn element_err(what: &str, why: &str) -> (e: NokhwaError)
    ensures
        e matches NokhwaError::OpenStreamError { message, backend } && message@ == what@ + ": "@
            + why@ && backend == Some(ApiBackend::GStreamer),
{
    let message = what.to_string().concat(": ").concat(why);
    NokhwaError::OpenStreamError { message, backend: Some(ApiBackend::GStreamer) }
}

/// The raw-video caps a pipeline is locked to.
#[derive(Clone, Debug)]
pub struct CapsFields {
    pub media_type: String,
    pub format: String,
    pub width: i32,
    pub height: i32,
    pub framerate_numer: i32,
    pub framerate_denom: i32,
}

/// The caps for a negotiated format: `video/x-raw` in the given video
/// format name, the format's size and whole frame rate (over one), each
/// taken as `i32`.
pub fn caps_for(fmt: CameraFormat, video_format: &str) -> (c: CapsFields)
    ensures
        c.media_type@ == "video/x-raw"@,
        c.format@ == video_format@,
        c.width == fmt.resolution.width_x as i32,
        c.height == fmt.resolution.height_y as i32,
        c.framerate_numer == fmt.frame_rate as i32,
        c.framerate_denom == 1,
{
    CapsFields {
        media_type: String::from_str("video/x-raw"),
        format: video_format.to_string(),
        width: fmt.resolution.width_x as i32,
        height: fmt.resolution.height_y as i32,
        framerate_numer: fmt.frame_rate as i32,
        framerate_denom: 1,
    }
}

/// The device a caller asked for among the enumerated display names: the
/// first with the given non-empty name, else the one at `positional`.
pub open spec fn spec_select_device(
    names: Seq<Seq<char>>,
    display_name: Seq<char>,
    positional: u32,
    r: Result<usize, NokhwaError>,
) -> bool {
    if display_name.len() > 0 && names.contains(display_name) {
        r matches Ok(i) && 0 <= i < names.len() && names[i as int] == display_name && forall|j: int|
            0 <= j < i ==> names[j] != display_name
    } else if positional < names.len() {
        r == Ok::<usize, NokhwaError>(positional as usize)
    } else {
        r matches Err(e) && e matches NokhwaError::OpenDeviceError { device, error } && device@
            == "index="@ + crate::text::decimal(positional as nat) + " name="@ + display_name
            && error@ == "device not found"@
    }
}

/// Find the device `new` was asked for.
pub fn select_device(names: &Vec<String>, display_name: &str, positional: u32) -> (r: Result<
    usize,
    NokhwaError,
>)
    ensures
        spec_select_device(names@.map_values(|n: String| n@), display_name@, positional, r),
{
    let ghost views = names@.map_values(|n: String| n@);
    if display_name.unicode_len() > 0 {
        let mut i: usize = 0;
        while i < names.len()
            invariant
                i <= names@.len(),
                views == names@.map_values(|n: String| n@),
                display_name@.len() > 0,
                forall|j: int| 0 <= j < i ==> views[j] != display_name@,
            decreases names@.len() - i,
        {
            if str_equal(names[i].as_str(), display_name) {
                proof {
                    assert(views[i as int] == display_name@);
                }
                return Ok(i);
            }
            i = i + 1;
        }
        proof {
            if views.contains(display_name@) {
                let k = choose|k: int| 0 <= k < views.len() && views[k] == display_name@;
                assert(false);
            }
        }
    }
    if (positional as usize) < names.len() {
        return Ok(positional as usize);
    }
    let device = String::from_str("index=").concat(crate::text::u32_text(positional).as_str()).concat(
        " name=",
    ).concat(display_name);
    Err(NokhwaError::OpenDeviceError { device, error: String::from_str("device not found") })
}

/// The descriptor of the `idx`-th enumerated device: its display name
/// (also kept as the key it is found again by), its device class, and its
/// position, saturated to `u32`.
pub fn device_info(name: String, class: String, idx: usize) -> (info: crate::types::CameraInfo)
    ensures
        info.human_name@ == name@,
        info.description@ == class@,
        info.misc@ == name@,
        info.index == crate::types::CameraIndex::Index(
            if idx <= u32::MAX {
                idx as u32
            } else {
                u32::MAX
            },
        ),
{
    let position: u32 = if idx <= u32::MAX as usize {
        idx as u32
    } else {
        u32::MAX
    };
    let misc = name.clone();
    crate::types::CameraInfo::new(name, class, misc, crate::types::CameraIndex::Index(position))
}

/// The URL schemes a device string is opened through `uridecodebin` for.
pub open spec fn url_schemes() -> Seq<Seq<char>> {
    seq![
        "rtsp://"@,
        "rtsps://"@,
        "rtmp://"@,
        "rtmps://"@,
        "http://"@,
        "https://"@,
        "file://"@,
        "srt://"@,
        "udp://"@,
        "tcp://"@,
    ]
}

/// A device string is a URL when it starts, ignoring ASCII case, with one
/// of the known schemes.
pub open spec fn spec_looks_like_url(s: Seq<char>) -> bool {
    exists|i: int|
        0 <= i < url_schemes().len() && crate::text::starts_with_ignore_ascii_case(
            s,
            #[trigger] url_schemes()[i],
        )
}

fn url_scheme_at(i: usize) -> (s: &'static str)
    requires
        i < 10,
    ensures
        s@ == url_schemes()[i as int],
{
    let s = match i {
        0 => "rtsp://",
        1 => "rtsps://",
        2 => "rtmp://",
        3 => "rtmps://",
        4 => "http://",
        5 => "https://",
        6 => "file://",
        7 => "srt://",
        8 => "udp://",
        _ => "tcp://",
    };
    proof {
        reveal_strlit("rtsp://");
        reveal_strlit("rtsps://");
        reveal_strlit("rtmp://");
        reveal_strlit("rtmps://");
        reveal_strlit("http://");
        reveal_strlit("https://");
        reveal_strlit("file://");
        reveal_strlit("srt://");
        reveal_strlit("udp://");
        reveal_strlit("tcp://");
    }
    s
}

/// Whether a device string names a URL source.
pub fn looks_like_url_scheme(s: &str) -> (r: bool)
    ensures
        r == spec_looks_like_url(s@),
{
    let mut i: usize = 0;
    while i < 10
        invariant
            i <= 10,
            url_schemes().len() == 10,
            forall|k: int|
                0 <= k < i ==> !crate::text::starts_with_ignore_ascii_case(
                    s@,
                    #[trigger] url_schemes()[k],
                ),
        decreases 10 - i,
    {
        if crate::text::starts_with_ignore_case(s, url_scheme_at(i)) {
            return true;
        }
        i = i + 1;
    }
    false
}

/// The first structure of a sample's caps, as far as the format is read
/// from it: the `format` field (or the error reading it gave), the frame
/// format that name decodes to, the `width` and `height` fields (or their
/// errors), and the `framerate` fraction when present.
#[derive(Debug)]
pub struct CapsStructure {
    pub format: Result<String, String>,
    pub frame_format: Option<FrameFormat>,
    pub width: Result<i32, String>,
    pub height: Result<i32, String>,
    pub framerate: Option<(i32, i32)>,
}

/// Frames per second of an optional framerate fraction: a positive
/// fraction that divides evenly gives its quotient, anything else the
/// default of thirty.
pub open spec fn fps_or_default(framerate: Option<(i32, i32)>) -> u32 {
    match framerate {
        Some((n, d)) => if n > 0 && d > 0 && n % d == 0 {
            (n / d) as u32
        } else {
            30
        },
        None => 30,
    }
}

/// The format of a sample from its caps: missing caps, a missing
/// structure, an unreadable or unknown format name, unreadable sizes and
/// non-positive sizes are each refused in that order.
pub open spec fn spec_sample_format(
    caps: Option<Option<CapsStructure>>,
    r: Result<CameraFormat, NokhwaError>,
) -> bool {
    match caps {
        None => r matches Err(e) && is_structure_error(
            e,
            "sample caps"@,
            "first sample had no caps"@,
        ),
        Some(None) => r matches Err(e) && is_structure_error(
            e,
            "sample caps structure"@,
            "caps has no structure"@,
        ),
        Some(Some(st)) => match st.format {
            Err(why) => r matches Err(e) && is_structure_error(e, "format"@, why@),
            Ok(name) => match st.frame_format {
                None => r matches Err(e) && is_structure_error(
                    e,
                    "format"@,
                    "videoconvert produced unsupported format: "@ + name@,
                ),
                Some(ff) => match st.width {
                    Err(why) => r matches Err(e) && is_structure_error(e, "width"@, why@),
                    Ok(w) => match st.height {
                        Err(why) => r matches Err(e) && is_structure_error(e, "height"@, why@),
                        Ok(h) => if w <= 0 || h <= 0 {
                            r matches Err(e) && is_structure_error(
                                e,
                                "resolution"@,
                                "invalid dimensions "@ + signed_decimal(w as int) + "x"@
                                    + signed_decimal(h as int),
                            )
                        } else {
                            r == Ok::<CameraFormat, NokhwaError>(
                                CameraFormat {
                                    resolution: Resolution {
                                        width_x: w as u32,
                                        height_y: h as u32,
                                    },
                                    format: ff,
                                    frame_rate: fps_or_default(st.framerate),
                                },
                            )
                        },
                    },
                },
            },
        },
    }
}

fn structure_error(structure: &str, error: String) -> (e: NokhwaError)
    ensures
        is_structure_error(e, structure@, error@),
{
    NokhwaError::StructureError { structure: structure.to_string(), error }
}

/// Read the format a URL stream delivers from the caps of one sample.
pub fn sample_format(caps: &Option<Option<CapsStructure>>) -> (r: Result<CameraFormat, NokhwaError>)
    ensures
        spec_sample_format(*caps, r),
{
    let st = match caps {
        None => {
            return Err(structure_error("sample caps", String::from_str("first sample had no caps")));
        },
        Some(None) => {
            return Err(
                structure_error("sample caps structure", String::from_str("caps has no structure")),
            );
        },
        Some(Some(st)) => st,
    };
    let name = match &st.format {
        Err(why) => {
            return Err(structure_error("format", why.clone()));
        },
        Ok(name) => name,
    };
    let ff = match st.frame_format {
        None => {
            return Err(
                structure_error(
                    "format",
                    String::from_str("videoconvert produced unsupported format: ").concat(
                        name.as_str(),
                    ),
                ),
            );
        },
        Some(ff) => ff,
    };
    let w = match &st.width {
        Err(why) => {
            return Err(structure_error("width", why.clone()));
        },
        Ok(w) => *w,
    };
    let h = match &st.height {
        Err(why) => {
            return Err(structure_error("height", why.clone()));
        },
        Ok(h) => *h,
    };
    if w <= 0 || h <= 0 {
        let msg = String::from_str("invalid dimensions ").concat(
            crate::text::i32_text(w).as_str(),
        ).concat("x").concat(crate::text::i32_text(h).as_str());
        return Err(structure_error("resolution", msg));
    }
    let fps: u32 = match st.framerate {
        Some((n, d)) => {
            if n > 0 && d > 0 && n % d == 0 {
                (n / d) as u32
            } else {
                30
            }
        },
        None => 30,
    };
    Ok(CameraFormat::new(Resolution::new(w as u32, h as u32), ff, fps))
}

/// Learn a URL stream's format from its first sample: no sample within the
/// wait is refused as a stream that may be unreachable or carry only audio;
/// otherwise the format is read from the sample's caps. On an error the
/// caller stops the pipeline before reporting it.
pub fn first_sample_format(first: &Option<Option<Option<CapsStructure>>>) -> (r: Result<
    CameraFormat,
    NokhwaError,
>)
    ensures
        match *first {
            None => r matches Err(e) && is_open_stream_error(
                e,
                "timed out waiting for the first sample from the URI — the stream may be unreachable or produce only audio"@,
                Some(ApiBackend::GStreamer),
            ),
            Some(caps) => spec_sample_format(caps, r),
        },
{
    match first {
        None => Err(
            NokhwaError::OpenStreamError {
                message: String::from_str(
                    "timed out waiting for the first sample from the URI — the stream may be unreachable or produce only audio",
                ),
                backend: Some(ApiBackend::GStreamer),
            },
        ),
        Some(caps) => sample_format(caps),
    }
}


/// A pad `uridecodebin` adds is linked to the converter only while the
/// converter's input is free and the pad carries video (its first caps
/// structure is named `video/...`).
pub fn should_link_pad(sink_linked: bool, structure_name: Option<&str>) -> (link: bool)
    ensures
        link == (!sink_linked && match structure_name {
            Some(n) => n@.len() >= 6 && n@.take(6) == "video/"@,
            None => false,
        }),
{
    if sink_linked {
        return false;
    }
    match structure_name {
        Some(n) => {
            proof {
                reveal_strlit("video/");
            }
            if n.unicode_len() < 6 {
                return false;
            }
            let prefix = "video/";
            let mut i: usize = 0;
            while i < 6
                invariant
                    i <= 6,
                    n@.len() >= 6,
                    !sink_linked,
                    structure_name matches Some(m) && m@ == n@,
                    prefix@ == "video/"@,
                    prefix@.len() == 6,
                    forall|k: int| 0 <= k < i ==> n@[k] == prefix@[k],
                decreases 6 - i,
            {
                if n.get_char(i) != prefix.get_char(i) {
                    proof {
                        assert(n@.take(6)[i as int] != prefix@[i as int]);
                    }
                    return false;
                }
                i = i + 1;
            }
            assert(n@.take(6) =~= prefix@);
            true
        },
        None => false,
    }
}

/// The raw-video format name a local pipeline is built for, when the
/// frame format has one; otherwise the format is refused.
pub fn pipeline_video_format(format: CameraFormat, video_format: Option<String>) -> (r: Result<
    String,
    NokhwaError,
>)
    ensures
        match video_format {
            Some(n) => r matches Ok(m) && m@ == n@,
            None => r matches Err(e) && is_set_error(
                e,
                "FrameFormat"@,
                crate::formats::frame_format_debug(format.format),
                "not supported by the GStreamer pipeline"@,
            ),
        },
{
    match video_format {
        Some(n) => Ok(n),
        None => Err(
            NokhwaError::SetPropertyError {
                property: String::from_str("FrameFormat"),
                value: crate::formats::frame_format_debug_text(format.format),
                error: String::from_str("not supported by the GStreamer pipeline"),
            },
        ),
    }
}


/// A framerate fraction that is a positive whole number of frames per
/// second.
pub open spec fn whole_rate(framerate: Option<(i32, i32)>) -> bool {
    framerate is Some && framerate.unwrap().0 > 0 && framerate.unwrap().1 > 0
        && framerate.unwrap().0 % framerate.unwrap().1 == 0
}

/// A sample's format has the caps' width and height in that order and the
/// caps' frame rate when it is a positive whole number of frames per second
/// (rate times denominator gives the numerator), else thirty.
pub proof fn lemma_sample_format_reads_caps(st: CapsStructure, r: Result<CameraFormat, NokhwaError>)
    requires
        spec_sample_format(Some(Some(st)), r),
        r is Ok,
    ensures
        st.width is Ok && r.unwrap().resolution.width_x == st.width.unwrap(),
        st.height is Ok && r.unwrap().resolution.height_y == st.height.unwrap(),
        st.frame_format == Some(r.unwrap().format),
        whole_rate(st.framerate) ==> r.unwrap().frame_rate * st.framerate.unwrap().1
            == st.framerate.unwrap().0,
        !whole_rate(st.framerate) ==> r.unwrap().frame_rate == 30,
{
    if let Some((n, d)) = st.framerate {
        if n > 0 && d > 0 && n % d == 0 {
            vstd::arithmetic::div_mod::lemma_fundamental_div_mod(n as int, d as int);
            assert((n / d) * d == n);
            assert(0 <= n / d <= n) by (nonlinear_arith)
                requires
                    n > 0,
                    d > 0,
            ;
        }
    }
}

/// A live control reports its property's current value as its value and the
/// property's default as its default, over the property's range.
pub proof fn lemma_property_control_values(c: CameraControl, p: PropertySpec)
    requires
        property_yields_control(p),
        is_property_control(c, p),
    ensures
        c.description is IntegerRange,
        c.description->IntegerRange_value == p.int_param.unwrap().current,
        c.description->IntegerRange_default == p.int_param.unwrap().default,
        c.description->IntegerRange_min == p.int_param.unwrap().minimum,
        c.description->IntegerRange_max == p.int_param.unwrap().maximum,
        spec_known_from_property_name(p.name@) == Some(c.control),
{
}
} // verus!
