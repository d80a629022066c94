//! UI contributions that a module declares: buttons, labels, screens and
//! popups; their validity rules, the recursive filtering of invalid items,
//! and their decoding from the metadata document.

use vstd::prelude::*;
use crate::json::{text_eq, JsonNumber};

verus! {

#[derive(Clone, Debug, PartialEq)]
pub struct FadButton {
    pub name: String,
    pub icon: Option<String>,
    pub location: Option<String>,
    pub callback: String,
}

#[derive(Clone, Debug, PartialEq)]
pub struct FadLabel {
    /// Text size, as the JSON number that declared it.
    pub size: JsonNumber,
    pub text: String,
    pub color: Option<String>,
}

#[derive(Clone, Debug)]
pub struct FadPopup {
    pub title: Option<String>,
    pub buttons: Option<Vec<FadButton>>,
    pub labels: Option<Vec<FadLabel>>,
}

#[derive(Clone, Debug)]
pub struct FadScreen {
    pub title: Option<String>,
    pub buttons: Option<Vec<FadButton>>,
    pub labels: Option<Vec<FadLabel>>,
}

#[derive(Clone, Debug)]
pub struct FadConfig {
    pub screens: Option<Vec<FadScreen>>,
    pub popups: Option<Vec<FadPopup>>,
    pub buttons: Option<Vec<FadButton>>,
}

/// A screen or a popup as a value: title, buttons, labels.
pub type PanelV = (Option<String>, Option<Seq<FadButton>>, Option<Seq<FadLabel>>);

/// A UI contribution as a value: screens, popups, top-level buttons.
pub type FadV = (Option<Seq<PanelV>>, Option<Seq<PanelV>>, Option<Seq<FadButton>>);

pub open spec fn opt_seq<T>(o: Option<Vec<T>>) -> Option<Seq<T>> {
    match o {
        Some(v) => Some(v@),
        None => None,
    }
}

impl FadScreen {
    pub open spec fn view(&self) -> PanelV {
        (self.title, opt_seq(self.buttons), opt_seq(self.labels))
    }
}

impl FadPopup {
    pub open spec fn view(&self) -> PanelV {
        (self.title, opt_seq(self.buttons), opt_seq(self.labels))
    }
}

pub open spec fn screens_view(s: Seq<FadScreen>) -> Seq<PanelV> {
    s.map_values(|x: FadScreen| x@)
}

pub open spec fn popups_view(s: Seq<FadPopup>) -> Seq<PanelV> {
    s.map_values(|x: FadPopup| x@)
}

pub open spec fn screens_opt_view(o: Option<Vec<FadScreen>>) -> Option<Seq<PanelV>> {
    match o {
        Some(v) => Some(screens_view(v@)),
        None => None,
    }
}

pub open spec fn popups_opt_view(o: Option<Vec<FadPopup>>) -> Option<Seq<PanelV>> {
    match o {
        Some(v) => Some(popups_view(v@)),
        None => None,
    }
}

impl FadConfig {
    pub open spec fn view(&self) -> FadV {
        (screens_opt_view(self.screens), popups_opt_view(self.popups), opt_seq(self.buttons))
    }
}

/// White space, as `char::is_whitespace` gives it.
pub open spec fn is_space(c: char) -> bool {
    ('\u{9}' <= c && c <= '\u{d}') || c == ' ' || c == '\u{85}' || c == '\u{a0}' || c == '\u{1680}'
        || ('\u{2000}' <= c && c <= '\u{200a}') || c == '\u{2028}' || c == '\u{2029}' || c == '\u{202f}'
        || c == '\u{205f}' || c == '\u{3000}'
}

/// A text that is empty once trimmed.
pub open spec fn blank(s: Seq<char>) -> bool {
    forall|i: int| 0 <= i < s.len() ==> is_space(#[trigger] s[i])
}

/// The places in the host UI where a button may be put.
pub open spec fn location_allowed(l: Seq<char>) -> bool {
    l == "drawer"@ || l == "songopts"@ || l == "settings"@ || l == "selectplaylist"@
}

pub open spec fn button_valid(b: FadButton) -> bool {
    &&& (b.location is Some ==> location_allowed(b.location->0@))
    &&& !blank(b.name@)
    &&& !blank(b.callback@)
}

/// A JSON number that is greater than zero.
pub open spec fn number_positive(n: JsonNumber) -> bool {
    match n {
        JsonNumber::PosInt(v) => v > 0,
        JsonNumber::NegInt(v) => v > 0,
        // positive finite values and positive infinity
        JsonNumber::Float(bits) => 0 < bits && bits <= 0x7FF0_0000_0000_0000,
    }
}

pub open spec fn label_valid(l: FadLabel) -> bool {
    !blank(l.text@) && number_positive(l.size)
}

pub open spec fn kept_buttons(o: Option<Seq<FadButton>>) -> Option<Seq<FadButton>> {
    match o {
        Some(s) => {
            let f = s.filter(|b: FadButton| button_valid(b));
            if f.len() == 0 {
                None
            } else {
                Some(f)
            }
        },
        None => None,
    }
}

pub open spec fn kept_labels(o: Option<Seq<FadLabel>>) -> Option<Seq<FadLabel>> {
    match o {
        Some(s) => {
            let f = s.filter(|l: FadLabel| label_valid(l));
            if f.len() == 0 {
                None
            } else {
                Some(f)
            }
        },
        None => None,
    }
}

pub open spec fn kept_panel(p: PanelV) -> PanelV {
    (p.0, kept_buttons(p.1), kept_labels(p.2))
}

pub open spec fn panel_nonempty(p: PanelV) -> bool {
    p.1 is Some || p.2 is Some
}

/// Each panel filtered, and those left with neither buttons nor labels
/// dropped.
pub open spec fn kept_panel_seq(s: Seq<PanelV>) -> Seq<PanelV> {
    s.map_values(|p: PanelV| kept_panel(p)).filter(|p: PanelV| panel_nonempty(p))
}

pub open spec fn kept_panels(o: Option<Seq<PanelV>>) -> Option<Seq<PanelV>> {
    match o {
        Some(s) => {
            let f = kept_panel_seq(s);
            if f.len() == 0 {
                None
            } else {
                Some(f)
            }
        },
        None => None,
    }
}

/// A UI contribution with every invalid button and label removed and every
/// container left empty dropped.
pub open spec fn kept_fad(f: FadV) -> FadV {
    (kept_panels(f.0), kept_panels(f.1), kept_buttons(f.2))
}

pub fn is_blank(s: &str) -> (r: bool)
    ensures
        r == blank(s@),
{
    let n = s.unicode_len();
    let mut i: usize = 0;
    while i < n
        invariant
            n == s@.len(),
            i <= n,
            forall|j: int| 0 <= j < i ==> is_space(#[trigger] s@[j]),
        decreases n - i,
    {
        let c = s.get_char(i);
        if !(('\u{9}' <= c && c <= '\u{d}') || c == ' ' || c == '\u{85}' || c == '\u{a0}' || c == '\u{1680}'
            || ('\u{2000}' <= c && c <= '\u{200a}') || c == '\u{2028}' || c == '\u{2029}' || c
            == '\u{202f}' || c == '\u{205f}' || c == '\u{3000}') {
            return false;
        }
        i = i + 1;
    }
    true
}

/// Whether `location` is one of the places where a button may be put.
pub fn is_allowed_location(location: &str) -> (r: bool)
    ensures
        r == location_allowed(location@),
{
    text_eq(location, "drawer") || text_eq(location, "songopts") || text_eq(location, "settings")
        || text_eq(location, "selectplaylist")
}

pub fn copy_opt_string(o: &Option<String>) -> (r: Option<String>)
    ensures
        r == *o,
{
    match o {
        Some(s) => Some(s.clone()),
        None => None,
    }
}

impl FadButton {
    /// Valid: an allowed location if any, and a name and a callback that are
    /// not blank.
    pub fn is_valid(&self) -> (r: bool)
        ensures
            r == button_valid(*self),
    {
        if let Some(location) = &self.location {
            if !is_allowed_location(location.as_str()) {
                return false;
            }
        }
        !is_blank(self.name.as_str()) && !is_blank(self.callback.as_str())
    }

    pub fn copy(&self) -> (r: FadButton)
        ensures
            r == *self,
    {
        FadButton {
            name: self.name.clone(),
            icon: copy_opt_string(&self.icon),
            location: copy_opt_string(&self.location),
            callback: self.callback.clone(),
        }
    }
}

impl FadLabel {
    /// Valid: text that is not blank and a size greater than zero.
    pub fn is_valid(&self) -> (r: bool)
        ensures
            r == label_valid(*self),
    {
        let positive = match self.size {
            JsonNumber::PosInt(v) => v > 0,
            JsonNumber::NegInt(v) => v > 0,
            JsonNumber::Float(bits) => 0 < bits && bits <= 0x7FF0_0000_0000_0000,
        };
        !is_blank(self.text.as_str()) && positive
    }

    pub fn copy(&self) -> (r: FadLabel)
        ensures
            r == *self,
    {
        FadLabel { size: self.size, text: self.text.clone(), color: copy_opt_string(&self.color) }
    }
}

/// The valid buttons of a list, `None` when none is left.
pub fn filter_buttons(o: &Option<Vec<FadButton>>) -> (r: Option<Vec<FadButton>>)
    ensures
        opt_seq(r) == kept_buttons(opt_seq(*o)),
{
    match o {
        None => None,
        Some(v) => {
            let mut out: Vec<FadButton> = Vec::new();
            let mut i: usize = 0;
            while i < v.len()
                invariant
                    i <= v@.len(),
                    out@ == v@.subrange(0, i as int).filter(|b: FadButton| button_valid(b)),
                decreases v@.len() - i,
            {
                proof {
                    let p = v@.subrange(0, i + 1);
                    assert(p.drop_last() =~= v@.subrange(0, i as int));
                    reveal_with_fuel(Seq::filter, 1);
                }
                if v[i].is_valid() {
                    out.push(v[i].copy());
                }
                i = i + 1;
            }
            assert(v@.subrange(0, v@.len() as int) =~= v@);
            if out.len() == 0 {
                None
            } else {
                Some(out)
            }
        },
    }
}

/// The valid labels of a list, `None` when none is left.
pub fn filter_labels(o: &Option<Vec<FadLabel>>) -> (r: Option<Vec<FadLabel>>)
    ensures
        opt_seq(r) == kept_labels(opt_seq(*o)),
{
    match o {
        None => None,
        Some(v) => {
            let mut out: Vec<FadLabel> = Vec::new();
            let mut i: usize = 0;
            while i < v.len()
                invariant
                    i <= v@.len(),
                    out@ == v@.subrange(0, i as int).filter(|l: FadLabel| label_valid(l)),
                decreases v@.len() - i,
            {
                proof {
                    let p = v@.subrange(0, i + 1);
                    assert(p.drop_last() =~= v@.subrange(0, i as int));
                    reveal_with_fuel(Seq::filter, 1);
                }
                if v[i].is_valid() {
                    out.push(v[i].copy());
                }
                i = i + 1;
            }
            assert(v@.subrange(0, v@.len() as int) =~= v@);
            if out.len() == 0 {
                None
            } else {
                Some(out)
            }
        },
    }
}

proof fn lemma_kept_panel_seq_step(s: Seq<PanelV>, i: int)
    requires
        0 <= i < s.len(),
    ensures
        kept_panel_seq(s.subrange(0, i + 1)) == (if panel_nonempty(kept_panel(s[i])) {
            kept_panel_seq(s.subrange(0, i)).push(kept_panel(s[i]))
        } else {
            kept_panel_seq(s.subrange(0, i))
        }),
{
    let p = s.subrange(0, i + 1);
    let m = p.map_values(|q: PanelV| kept_panel(q));
    assert(m.drop_last() =~= s.subrange(0, i).map_values(|q: PanelV| kept_panel(q)));
    assert(m.last() == kept_panel(s[i]));
    reveal_with_fuel(Seq::filter, 1);
}

/// The screens with their invalid items removed and the empty ones dropped;
/// `None` when none is left.
pub fn filter_screens(o: &Option<Vec<FadScreen>>) -> (r: Option<Vec<FadScreen>>)
    ensures
        screens_opt_view(r) == kept_panels(screens_opt_view(*o)),
{
    match o {
        None => None,
        Some(v) => {
            let ghost sv = screens_view(v@);
            let mut out: Vec<FadScreen> = Vec::new();
            let mut i: usize = 0;
            while i < v.len()
                invariant
                    i <= v@.len(),
                    sv == screens_view(v@),
                    screens_view(out@) == kept_panel_seq(sv.subrange(0, i as int)),
                decreases v@.len() - i,
            {
                proof {
                    lemma_kept_panel_seq_step(sv, i as int);
                }
                let s = FadScreen {
                    title: copy_opt_string(&v[i].title),
                    buttons: filter_buttons(&v[i].buttons),
                    labels: filter_labels(&v[i].labels),
                };
                assert(s@ == kept_panel(sv[i as int]));
                if s.buttons.is_some() || s.labels.is_some() {
                    out.push(s);
                    assert(screens_view(out@) =~= kept_panel_seq(sv.subrange(0, i as int)).push(s@));
                }
                i = i + 1;
            }
            assert(sv.subrange(0, v@.len() as int) =~= sv);
            if out.len() == 0 {
                None
            } else {
                Some(out)
            }
        },
    }
}

/// The popups with their invalid items removed and the empty ones dropped;
/// `None` when none is left.
pub fn filter_popups(o: &Option<Vec<FadPopup>>) -> (r: Option<Vec<FadPopup>>)
    ensures
        popups_opt_view(r) == kept_panels(popups_opt_view(*o)),
{
    match o {
        None => None,
        Some(v) => {
            let ghost sv = popups_view(v@);
            let mut out: Vec<FadPopup> = Vec::new();
            let mut i: usize = 0;
            while i < v.len()
                invariant
                    i <= v@.len(),
                    sv == popups_view(v@),
                    popups_view(out@) == kept_panel_seq(sv.subrange(0, i as int)),
                decreases v@.len() - i,
            {
                proof {
                    lemma_kept_panel_seq_step(sv, i as int);
                }
                let s = FadPopup {
                    title: copy_opt_string(&v[i].title),
                    buttons: filter_buttons(&v[i].buttons),
                    labels: filter_labels(&v[i].labels),
                };
                assert(s@ == kept_panel(sv[i as int]));
                if s.buttons.is_some() || s.labels.is_some() {
                    out.push(s);
                    assert(popups_view(out@) =~= kept_panel_seq(sv.subrange(0, i as int)).push(s@));
                }
                i = i + 1;
            }
            assert(sv.subrange(0, v@.len() as int) =~= sv);
            if out.len() == 0 {
                None
            } else {
                Some(out)
            }
        },
    }
}

/// Removes every invalid button and label, and drops every container left
/// with nothing in it.
pub fn validate_and_filter_fad_config(fad_config: &mut FadConfig)
    ensures
        final(fad_config)@ == kept_fad(old(fad_config)@),
{
    let screens = filter_screens(&fad_config.screens);
    let popups = filter_popups(&fad_config.popups);
    let buttons = filter_buttons(&fad_config.buttons);
    fad_config.screens = screens;
    fad_config.popups = popups;
    fad_config.buttons = buttons;
}

pub fn copy_buttons(o: &Option<Vec<FadButton>>) -> (r: Option<Vec<FadButton>>)
    ensures
        opt_seq(r) == opt_seq(*o),
{
    match o {
        None => None,
        Some(v) => {
            let mut out: Vec<FadButton> = Vec::new();
            let mut i: usize = 0;
            while i < v.len()
                invariant
                    i <= v@.len(),
                    out@ == v@.subrange(0, i as int),
                decreases v@.len() - i,
            {
                out.push(v[i].copy());
                i = i + 1;
                assert(out@ =~= v@.subrange(0, i as int));
            }
            assert(out@ =~= v@);
            Some(out)
        },
    }
}

pub fn copy_labels(o: &Option<Vec<FadLabel>>) -> (r: Option<Vec<FadLabel>>)
    ensures
        opt_seq(r) == opt_seq(*o),
{
    match o {
        None => None,
        Some(v) => {
            let mut out: Vec<FadLabel> = Vec::new();
            let mut i: usize = 0;
            while i < v.len()
                invariant
                    i <= v@.len(),
                    out@ == v@.subrange(0, i as int),
                decreases v@.len() - i,
            {
                out.push(v[i].copy());
                i = i + 1;
                assert(out@ =~= v@.subrange(0, i as int));
            }
            assert(out@ =~= v@);
            Some(out)
        },
    }
}

impl FadScreen {
    pub fn copy(&self) -> (r: FadScreen)
        ensures
            r@ == self@,
    {
        FadScreen {
            title: copy_opt_string(&self.title),
            buttons: copy_buttons(&self.buttons),
            labels: copy_labels(&self.labels),
        }
    }
}

impl FadPopup {
    pub fn copy(&self) -> (r: FadPopup)
        ensures
            r@ == self@,
    {
        FadPopup {
            title: copy_opt_string(&self.title),
            buttons: copy_buttons(&self.buttons),
            labels: copy_labels(&self.labels),
        }
    }
}

impl FadConfig {
    pub fn copy(&self) -> (r: FadConfig)
        ensures
            r@ == self@,
    {
        let screens = match &self.screens {
            None => None,
            Some(v) => {
                let mut out: Vec<FadScreen> = Vec::new();
                let mut i: usize = 0;
                while i < v.len()
                    invariant
                        i <= v@.len(),
                        screens_view(out@) == screens_view(v@.subrange(0, i as int)),
                    decreases v@.len() - i,
                {
                    let c = v[i].copy();
                    let ghost before = out@;
                    out.push(c);
                    assert(screens_view(out@) =~= screens_view(before).push(c@));
                    assert(screens_view(v@.subrange(0, i + 1)) =~= screens_view(v@.subrange(0, i as int)).push(v@[i as int]@));
                    i = i + 1;
                }
                assert(v@.subrange(0, v@.len() as int) =~= v@);
                Some(out)
            },
        };
        let popups = match &self.popups {
            None => None,
            Some(v) => {
                let mut out: Vec<FadPopup> = Vec::new();
                let mut i: usize = 0;
                while i < v.len()
                    invariant
                        i <= v@.len(),
                        popups_view(out@) == popups_view(v@.subrange(0, i as int)),
                    decreases v@.len() - i,
                {
                    let c = v[i].copy();
                    let ghost before = out@;
                    out.push(c);
                    assert(popups_view(out@) =~= popups_view(before).push(c@));
                    assert(popups_view(v@.subrange(0, i + 1)) =~= popups_view(v@.subrange(0, i as int)).push(v@[i as int]@));
                    i = i + 1;
                }
                assert(v@.subrange(0, v@.len() as int) =~= v@);
                Some(out)
            },
        };
        FadConfig { screens, popups, buttons: copy_buttons(&self.buttons) }
    }
}

} // verus!
