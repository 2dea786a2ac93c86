use vstd::prelude::*;

verus! {

// ---------------------------------------------------------------------------
// Language classification of a text fragment
// ---------------------------------------------------------------------------

/// The languages a fragment of a release title is classified into.
#[derive(Clone, Copy, Debug, PartialEq, Eq, Structural)]
pub enum Lang {
    En,
    Zh,
    Jp,
    Other,
}

/// The character classes the classifier looks for.
#[derive(Clone, Copy)]
pub enum CharClass {
    /// Hiragana or katakana.
    Kana,
    /// CJK unified ideographs.
    Cjk,
    /// ASCII letters.
    Latin,
}

pub open spec fn in_class(cl: CharClass, c: char) -> bool {
    match cl {
        CharClass::Kana => 0x3040 <= c as u32 <= 0x30FF,
        CharClass::Cjk => 0x4E00 <= c as u32 <= 0x9FFF,
        CharClass::Latin => (65 <= c as u32 <= 90) || (97 <= c as u32 <= 122),
    }
}

/// `s` holds two consecutive characters of the class.
pub open spec fn has_two(cl: CharClass, s: Seq<char>) -> bool {
    exists|i: int|
        #![trigger in_class(cl, s[i])]
        0 <= i && i + 1 < s.len() && in_class(cl, s[i]) && in_class(cl, s[i + 1])
}

/// The language of a fragment.  Japanese is checked before Chinese
/// because Japanese text often embeds Chinese-derived characters.
pub open spec fn lang_of(s: Seq<char>) -> Lang {
    if has_two(CharClass::Kana, s) {
        Lang::Jp
    } else if has_two(CharClass::Cjk, s) {
        Lang::Zh
    } else if has_two(CharClass::Latin, s) {
        Lang::En
    } else {
        Lang::Other
    }
}

pub fn char_in_class(cl: CharClass, c: char) -> (r: bool)
    ensures
        r == in_class(cl, c),
{
    let u = c as u32;
    match cl {
        CharClass::Kana => 0x3040 <= u && u <= 0x30FF,
        CharClass::Cjk => 0x4E00 <= u && u <= 0x9FFF,
        CharClass::Latin => (65 <= u && u <= 90) || (97 <= u && u <= 122),
    }
}

fn has_two_x(cl: CharClass, v: &Vec<char>) -> (r: bool)
    ensures
        r == has_two(cl, v@),
{
    if v.len() < 2 {
        return false;
    }
    let mut i: usize = 0;
    while i + 1 < v.len()
        invariant
            v.len() >= 2,
            i + 1 <= v.len(),
            forall|j: int|
                #![trigger in_class(cl, v@[j])]
                0 <= j < i ==> !(in_class(cl, v@[j]) && in_class(cl, v@[j + 1])),
        decreases v.len() - i,
    {
        if char_in_class(cl, v[i]) && char_in_class(cl, v[i + 1]) {
            return true;
        }
        i = i + 1;
    }
    false
}

/// Classifies a fragment of a release title by its script.
pub fn find_lang(v: &Vec<char>) -> (r: Lang)
    ensures
        r == lang_of(v@),
{
    if has_two_x(CharClass::Kana, v) {
        Lang::Jp
    } else if has_two_x(CharClass::Cjk, v) {
        Lang::Zh
    } else if has_two_x(CharClass::Latin, v) {
        Lang::En
    } else {
        Lang::Other
    }
}

} // verus!
