//! Words and colours of the user interface: how texts are cut to fit, how
//! durations and shares are told, and which colour a thing has.
use crate::discovery;
use crate::state::{Action, ToastLevel};
use crate::text;
use vstd::prelude::*;

verus! {

// ---------------------------------------------------------------------------
// Colours
// ---------------------------------------------------------------------------

/// A colour by what it says.
#[derive(Debug, Clone, Copy, PartialEq, Eq, Structural)]
pub enum Ink {
    Plain,
    Dim,
    Faint,
    Cyan,
    Violet,
    Good,
    Warn,
    Bad,
    /// Halfway between cyan and violet.
    Accent,
}

/// The colour of a message.
pub fn toast_ink(level: ToastLevel) -> (r: Ink)
    ensures
        r == match level {
            ToastLevel::Info => Ink::Cyan,
            ToastLevel::Success => Ink::Good,
            ToastLevel::Warn => Ink::Warn,
            ToastLevel::Error => Ink::Bad,
        },
{
    match level {
        ToastLevel::Info => Ink::Cyan,
        ToastLevel::Success => Ink::Good,
        ToastLevel::Warn => Ink::Warn,
        ToastLevel::Error => Ink::Bad,
    }
}

/// The sign in front of a message.
pub fn glyph(level: ToastLevel) -> (r: &'static str)
    ensures
        r@ == match level {
            ToastLevel::Info => "·"@,
            ToastLevel::Success => "✓"@,
            ToastLevel::Warn => "!"@,
            ToastLevel::Error => "×"@,
        },
{
    match level {
        ToastLevel::Info => "·",
        ToastLevel::Success => "✓",
        ToastLevel::Warn => "!",
        ToastLevel::Error => "×",
    }
}

/// How a line of a log reads: a failure, a warning, news, or the rest.
pub open spec fn ink_of_line(line: Seq<char>) -> Ink {
    let lower = text::lower_of(line);
    if text::holds(lower, "error"@) || text::holds(lower, "panic"@) || text::holds(
        lower,
        "failed"@,
    ) {
        Ink::Bad
    } else if text::holds(lower, "warn"@) {
        Ink::Warn
    } else if text::holds(lower, " info "@) || text::begins_with(lower, "info"@) {
        Ink::Plain
    } else {
        Ink::Dim
    }
}

/// The colour of a line of a log, be it the engine's own or the guest's.
pub fn line_color(line: &str) -> (r: Ink)
    ensures
        r == ink_of_line(line@),
{
    let lower = text::lower(line);
    if text::has(&lower, "error") || text::has(&lower, "panic") || text::has(&lower, "failed") {
        Ink::Bad
    } else if text::has(&lower, "warn") {
        Ink::Warn
    } else if text::has(&lower, " info ") || text::begins(&lower, "info") {
        Ink::Plain
    } else {
        Ink::Dim
    }
}

/// What is used of a file system.
pub open spec fn used_of(free: u64, total: u64) -> nat {
    if total > free {
        (total - free) as nat
    } else {
        0
    }
}

/// Space pressure: quiet up to 80 %, a warning above, bad above 95 %.
pub fn pressure(free: u64, total: u64) -> (r: Ink)
    ensures
        r == (if 100 * used_of(free, total) > 95 * total {
            Ink::Bad
        } else if 100 * used_of(free, total) > 80 * total {
            Ink::Warn
        } else {
            Ink::Dim
        }),
{
    let used: u128 = if total > free {
        (total - free) as u128
    } else {
        0
    };
    if 100 * used > 95 * (total as u128) {
        Ink::Bad
    } else if 100 * used > 80 * (total as u128) {
        Ink::Warn
    } else {
        Ink::Dim
    }
}

/// The sum of some bytes.
pub open spec fn sum_of(bytes: Seq<u8>) -> nat
    decreases bytes.len(),
{
    if bytes.len() == 0 {
        0
    } else {
        sum_of(bytes.drop_last()) + bytes.last() as nat
    }
}

/// A stable place on the accent ramp for a name, in hundredths, so that each card
/// keeps a hue of its own.
pub fn accent_for(name: &str) -> (r: u32)
    ensures
        r == sum_of(vstd::utf8::encode_utf8(name@)) % 100,
        r < 100,
{
    let bytes = name.as_bytes();
    let ghost all = bytes@;
    let mut r: u32 = 0;
    let mut i: usize = 0;
    assert(all.take(0) =~= Seq::<u8>::empty());
    while i < bytes.len()
        invariant
            all == bytes@,
            i <= all.len(),
            r == sum_of(all.take(i as int)) % 100,
        decreases all.len() - i,
    {
        proof {
            assert(all.take(i + 1).drop_last() =~= all.take(i as int));
            assert(all.take(i + 1).last() == all[i as int]);
            let s = sum_of(all.take(i as int)) as int;
            let b = all[i as int] as int;
            assert((s + b) % 100 == (s % 100 + b) % 100);
        }
        r = (r + bytes[i] as u32) % 100;
        i = i + 1;
    }
    assert(all.take(i as int) =~= all);
    r
}

// ---------------------------------------------------------------------------
// Texts that fit
// ---------------------------------------------------------------------------

/// The text with its beginning cut off, so that at most `max` characters are left.
pub open spec fn tail_of(s: Seq<char>, max: nat) -> Seq<char> {
    if s.len() <= max {
        s
    } else {
        "…"@ + s.skip(s.len() - (if max == 0 {
            0
        } else {
            max - 1
        }))
    }
}

/// The text with its end cut off, so that at most `max` characters are left.
pub open spec fn head_of(s: Seq<char>, max: nat) -> Seq<char> {
    if s.len() <= max {
        s
    } else {
        text::trim_end_of(s.take(if max == 0 {
            0
        } else {
            max - 1
        })) + "…"@
    }
}

/// Cuts the beginning off a long path: the file name matters most.
pub fn shorten(s: &str, max: usize) -> (r: String)
    ensures
        r@ == tail_of(s@, max as nat),
{
    let v = text::chars_of(s);
    if v.len() <= max {
        return s.to_owned();
    }
    let keep: usize = if max == 0 {
        0
    } else {
        max - 1
    };
    let tail = text::string_of(&v, v.len() - keep, v.len());
    assert(tail@ =~= s@.skip(s@.len() - keep));
    text::cat("…", &tail)
}

/// Cuts the end off a long sentence: its first words identify it.
pub fn shorten_end(s: &str, max: usize) -> (r: String)
    ensures
        r@ == head_of(s@, max as nat),
{
    let v = text::chars_of(s);
    if v.len() <= max {
        return s.to_owned();
    }
    let keep: usize = if max == 0 {
        0
    } else {
        max - 1
    };
    let head = text::string_of(&v, 0, keep);
    assert(head@ =~= s@.take(keep as int));
    text::cat(&text::trim_end(&head), "…")
}

proof fn lemma_trim_end_shrinks(s: Seq<char>)
    ensures
        text::trim_end_of(s).len() <= s.len(),
    decreases s.len(),
{
    if s.len() > 0 && text::is_white(s.last()) {
        lemma_trim_end_shrinks(s.drop_last());
    }
}

/// A text that was cut fits, and one that fits is left alone.
pub proof fn cut_texts_fit(s: Seq<char>, max: nat)
    requires
        max >= 1,
    ensures
        tail_of(s, max).len() <= max,
        head_of(s, max).len() <= max,
        s.len() <= max ==> tail_of(s, max) == s && head_of(s, max) == s,
        s.len() > max ==> tail_of(s, max).len() == max,
{
    reveal_strlit("…");
    if s.len() > max {
        lemma_trim_end_shrinks(s.take(max - 1));
    }
}

/// A path that was cut still ends as it did.
pub proof fn cut_paths_keep_their_tail(s: Seq<char>, max: nat, tail: Seq<char>)
    requires
        tail.len() < max,
        text::ends_with(s, tail),
    ensures
        text::ends_with(tail_of(s, max), tail),
{
    reveal_strlit("…");
    if s.len() > max {
        let cut = tail_of(s, max);
        assert(cut.skip(cut.len() - tail.len()) =~= s.skip(s.len() - tail.len()));
        assert(cut.subrange(cut.len() - tail.len(), cut.len() as int) =~= tail);
    }
}

// ---------------------------------------------------------------------------
// Small sentences
// ---------------------------------------------------------------------------

/// A compact duration: "18s", "4m12s", "1h07m".
pub open spec fn elapsed_of(secs: nat) -> Seq<char> {
    let h = secs / 3600;
    let m = (secs % 3600) / 60;
    let s = secs % 60;
    if h == 0 && m == 0 {
        text::decimal_of(s) + "s"@
    } else if h == 0 {
        text::decimal_of(m) + "m"@ + text::two_digits_of(s) + "s"@
    } else {
        text::decimal_of(h) + "h"@ + text::two_digits_of(m) + "m"@
    }
}

/// A compact duration.
pub fn elapsed(secs: u64) -> (r: String)
    ensures
        r@ == elapsed_of(secs as nat),
{
    let h: u64 = secs / 3600;
    let m: u64 = (secs % 3600) / 60;
    let s: u64 = secs % 60;
    if h == 0 && m == 0 {
        text::cat(&text::decimal(s), "s")
    } else if h == 0 {
        text::cat4(&text::decimal(m), "m", &text::two_digits(s), "s")
    } else {
        text::cat4(&text::decimal(h), "h", &text::two_digits(m), "m")
    }
}

/// A count of things, in the singular or the plural.
pub open spec fn counted(n: nat, thing: Seq<char>) -> Seq<char> {
    text::decimal_of(n) + " "@ + thing + (if n == 1 {
        ""@
    } else {
        "s"@
    })
}

/// A count of things, in the singular or the plural.
pub fn count(n: usize, thing: &str) -> (r: String)
    ensures
        r@ == counted(n as nat, thing@),
{
    let ending = if n == 1 {
        ""
    } else {
        "s"
    };
    text::cat4(&text::decimal(n as u64), " ", thing, ending)
}

/// What a file occupies on paper and, if that is known, on the disk.
pub open spec fn sizes_of(apparent: u64, allocated: Option<u64>, word: Seq<char>) -> Seq<char> {
    let base = discovery::bytes_shown(apparent as nat) + word;
    match allocated {
        Some(n) => base + " · "@ + discovery::bytes_shown(n as nat) + " on disk"@,
        None => base,
    }
}

/// What a file occupies on paper and, if that is known, on the disk.
pub fn sizes(apparent: u64, allocated: Option<u64>, word: &str) -> (r: String)
    ensures
        r@ == sizes_of(apparent, allocated, word@),
{
    let base = text::cat(&discovery::format_bytes(apparent), word);
    match allocated {
        Some(n) => text::cat4(&base, " · ", &discovery::format_bytes(n), " on disk"),
        None => base,
    }
}

/// What an installer variant is called.
pub fn variant_label(variant: &str) -> (r: &'static str)
    ensures
        r@ == (if variant@ == "text-netboot"@ {
            "Text installer · network"@
        } else if variant@ == "netinst-iso"@ {
            "Official netinst ISO"@
        } else {
            "Graphical installer · network"@
        }),
{
    if text::same(variant, "text-netboot") {
        "Text installer · network"
    } else if text::same(variant, "netinst-iso") {
        "Official netinst ISO"
    } else {
        "Graphical installer · network"
    }
}

/// What an installer variant is like.
pub fn variant_note(variant: &str) -> (r: &'static str)
    ensures
        r@ == (if variant@ == "text-netboot"@ {
            "Fast, keyboard-driven network installer."@
        } else if variant@ == "netinst-iso"@ {
            "Official netinst ISO fetched and verified for you."@
        } else {
            "Graphical Debian installer with verified network media."@
        }),
{
    if text::same(variant, "text-netboot") {
        "Fast, keyboard-driven network installer."
    } else if text::same(variant, "netinst-iso") {
        "Official netinst ISO fetched and verified for you."
    } else {
        "Graphical Debian installer with verified network media."
    }
}

// ---------------------------------------------------------------------------
// Pieces of a surface
// ---------------------------------------------------------------------------

/// A short text in a box of its own.
#[derive(Debug, PartialEq, Eq)]
pub struct Chip {
    pub text: String,
    pub ink: Ink,
}

/// A chip as plain values.
pub ghost struct ChipView {
    pub text: Seq<char>,
    pub ink: Ink,
}

impl View for Chip {
    type V = ChipView;

    open spec fn view(&self) -> ChipView {
        ChipView { text: self.text@, ink: self.ink }
    }
}

/// The chips as plain values.
pub open spec fn chips_of(chips: Seq<Chip>) -> Seq<ChipView> {
    chips.map_values(|c: Chip| c@)
}

pub open spec fn chip_view(text: Seq<char>, ink: Ink) -> ChipView {
    ChipView { text, ink }
}

/// Adds a chip.
pub fn add_chip(chips: &mut Vec<Chip>, text: String, ink: Ink)
    ensures
        chips_of(final(chips)@) == chips_of(old(chips)@).push(chip_view(text@, ink)),
{
    let ghost before = chips_of(chips@);
    chips.push(Chip { text, ink });
    assert(chips_of(chips@) =~= before.push(chip_view(text@, ink)));
}

/// Something to press.
#[derive(Debug, PartialEq, Eq)]
pub struct Button {
    pub label: String,
    /// What it does, or why it cannot be pressed. Empty if that goes without
    /// saying.
    pub hint: String,
    pub enabled: bool,
    pub ink: Ink,
    /// The one thing to do on this surface.
    pub primary: bool,
    pub action: Action,
}

/// A button as plain values.
pub ghost struct ButtonView {
    pub label: Seq<char>,
    pub hint: Seq<char>,
    pub enabled: bool,
    pub ink: Ink,
    pub primary: bool,
    pub action: Action,
}

impl View for Button {
    type V = ButtonView;

    open spec fn view(&self) -> ButtonView {
        ButtonView {
            label: self.label@,
            hint: self.hint@,
            enabled: self.enabled,
            ink: self.ink,
            primary: self.primary,
            action: self.action,
        }
    }
}

/// The buttons as plain values.
pub open spec fn buttons_of(buttons: Seq<Button>) -> Seq<ButtonView> {
    buttons.map_values(|b: Button| b@)
}

/// A quiet button.
pub open spec fn ghost_view(
    label: Seq<char>,
    hint: Seq<char>,
    enabled: bool,
    ink: Ink,
    action: Action,
) -> ButtonView {
    ButtonView { label, hint, enabled, ink, primary: false, action }
}

/// The one thing to do.
pub open spec fn primary_view(label: Seq<char>, hint: Seq<char>, action: Action) -> ButtonView {
    ButtonView { label, hint, enabled: true, ink: Ink::Cyan, primary: true, action }
}

/// A quiet button.
pub fn ghost_button(label: &str, hint: &str, enabled: bool, ink: Ink, action: Action) -> (r: Button)
    ensures
        r@ == ghost_view(label@, hint@, enabled, ink, action),
{
    Button {
        label: label.to_owned(),
        hint: hint.to_owned(),
        enabled,
        ink,
        primary: false,
        action,
    }
}

/// The one thing to do.
pub fn primary_button(label: &str, hint: &str, action: Action) -> (r: Button)
    ensures
        r@ == primary_view(label@, hint@, action),
{
    Button {
        label: label.to_owned(),
        hint: hint.to_owned(),
        enabled: true,
        ink: Ink::Cyan,
        primary: true,
        action,
    }
}

/// Adds a button.
pub fn add_button(buttons: &mut Vec<Button>, button: Button)
    ensures
        buttons_of(final(buttons)@) == buttons_of(old(buttons)@).push(button@),
{
    let ghost before = buttons_of(buttons@);
    buttons.push(button);
    assert(buttons_of(buttons@) =~= before.push(button@));
}

} // verus!
