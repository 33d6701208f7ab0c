//! Names taken from the environment: the desktop session and the editor.
use vstd::prelude::*;
use crate::text::{base_name, base_name_of, chars_of, contains_chars, contains_seq, push_str, string_of};

verus! {

/// What `str::to_lowercase` makes of a text.
pub uninterp spec fn lower_of(s: Seq<char>) -> Seq<char>;

/// Relies on `str::to_lowercase`: the lowercase form of the text, by
/// Unicode's rules, which depends on the characters alone.
#[verifier::external_body]
fn lowercase(s: &str) -> (r: String)
    ensures
        r@ == lower_of(s@),
{
    s.to_lowercase()
}

/// The desktop that a lowercased session name denotes: the first known
/// identifier that occurs in it, in the order gnome, lxde, openbox, i3,
/// ubuntu, plasma (KDE), mate; else the name itself.
pub open spec fn desktop_of(lowered: Seq<char>) -> Seq<char> {
    if contains_seq(lowered, "gnome"@) {
        "Gnome"@
    } else if contains_seq(lowered, "lxde"@) {
        "LXDE"@
    } else if contains_seq(lowered, "openbox"@) {
        "OpenBox"@
    } else if contains_seq(lowered, "i3"@) {
        "i3"@
    } else if contains_seq(lowered, "ubuntu"@) {
        "Ubuntu"@
    } else if contains_seq(lowered, "plasma"@) {
        "KDE"@
    } else if contains_seq(lowered, "mate"@) {
        "MATE"@
    } else {
        lowered
    }
}

/// The desktop named by a `DESKTOP_SESSION` value, if one is set.
pub open spec fn desktop_for_session(session: Option<Seq<char>>) -> Seq<char> {
    match session {
        Some(s) => desktop_of(lower_of(base_name(s))),
        None => "Unknown"@,
    }
}

fn mentions(s: &Vec<char>, id: &str) -> (r: bool)
    ensures
        r == contains_seq(s@, id@),
{
    let pat = chars_of(id);
    contains_chars(s, &pat)
}

fn text_of(s: &str) -> (r: String)
    ensures
        r@ == s@,
{
    let mut out: Vec<char> = Vec::new();
    push_str(&mut out, s);
    string_of(&out)
}

/// Classifies a lowercased session name: `i3` gives `i3`,
/// `plasmawayland` gives `KDE`, an unknown `foobar` stays `foobar`.
pub fn classify_desktop(lowered: &str) -> (r: String)
    ensures
        r@ == desktop_of(lowered@),
{
    let cs = chars_of(lowered);
    if mentions(&cs, "gnome") {
        text_of("Gnome")
    } else if mentions(&cs, "lxde") {
        text_of("LXDE")
    } else if mentions(&cs, "openbox") {
        text_of("OpenBox")
    } else if mentions(&cs, "i3") {
        text_of("i3")
    } else if mentions(&cs, "ubuntu") {
        text_of("Ubuntu")
    } else if mentions(&cs, "plasma") {
        text_of("KDE")
    } else if mentions(&cs, "mate") {
        text_of("MATE")
    } else {
        text_of(lowered)
    }
}

/// The desktop environment for a `DESKTOP_SESSION` value: the session's
/// final path segment, lowercased and classified; `Unknown` when unset
/// (`/usr/share/xsessions/i3` gives `i3`).
pub fn desktop_from_session(session: Option<&str>) -> (r: String)
    ensures
        r@ == desktop_for_session(
            match session {
                Some(s) => Some(s@),
                None => None,
            },
        ),
{
    match session {
        Some(s) => {
            let base = base_name_of(s);
            let lowered = lowercase(base.as_str());
            classify_desktop(lowered.as_str())
        },
        None => text_of("Unknown"),
    }
}

/// The editor named by an `EDITOR` value: its final path segment
/// (`/usr/bin/vim` gives `vim`); `None` when the variable is unset.
pub fn default_editor(editor_var: Option<&str>) -> (r: Option<String>)
    ensures
        match editor_var {
            Some(p) => r matches Some(s) && s@ == base_name(p@),
            None => r is None,
        },
{
    match editor_var {
        Some(p) => Some(base_name_of(p)),
        None => None,
    }
}

} // verus!
