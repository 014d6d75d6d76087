//! Password quality classes, and the text handed to the strength estimator.
use vstd::prelude::*;
use crate::gui::database::first_piece;
use crate::message::UiMessage;
use crate::outside::no_nul;
use crate::text::{chars_of, find_char, slice_chars, string_of};

verus! {

/// How strong a password is, from its estimated entropy in bits: `Bad` at zero or less,
/// `Poor` below 40, `Weak` below 75, `Good` below 100, `Excellent` from 100 on.
#[derive(Debug, Clone, Copy, PartialEq, Eq, Structural)]
pub enum PasswordQuality {
    Bad,
    Poor,
    Weak,
    Good,
    Excellent,
}

/// The word that names a quality, before translation in the context "Password strength":
/// `Bad` is shown as `Poor`, as KeePassXC's password widget groups them.
pub open spec fn quality_word(q: PasswordQuality) -> Seq<char> {
    match q {
        PasswordQuality::Bad | PasswordQuality::Poor => "Poor"@,
        PasswordQuality::Weak => "Weak"@,
        PasswordQuality::Good => "Good"@,
        PasswordQuality::Excellent => "Excellent"@,
    }
}

impl PasswordQuality {
    /// The word that names this quality (see `quality_word`).
    pub fn word(&self) -> (r: &'static str)
        ensures
            r@ == quality_word(*self),
    {
        match self {
            PasswordQuality::Bad | PasswordQuality::Poor => "Poor",
            PasswordQuality::Weak => "Weak",
            PasswordQuality::Good => "Good",
            PasswordQuality::Excellent => "Excellent",
        }
    }

    /// The name of this quality before translation: its word, in the context
    /// "Password strength".
    pub fn message(&self) -> (r: UiMessage)
        ensures
            r.parts() == (Some("Password strength"@), quality_word(*self)),
            r.translatable(),
    {
        let word = self.word();
        proof {
            reveal_strlit("Password strength");
            reveal_strlit("Poor");
            reveal_strlit("Weak");
            reveal_strlit("Good");
            reveal_strlit("Excellent");
        }
        UiMessage { context: Some("Password strength"), id: word }
    }

    /// The name of this quality as the user interface shows it: its `message`, translated.
    pub fn to_string(&self) -> String {
        self.message().translated()
    }
}

/// How many characters of a password the strength estimator is given.
pub const ESTIMATE_THRESHOLD: usize = 256;

/// The text the strength estimator is given for a password: its first 256 characters, up
/// to the first NUL among them (the estimator takes a C string).
pub open spec fn estimator_input(password: Seq<char>) -> Seq<char> {
    let head = if password.len() > ESTIMATE_THRESHOLD {
        password.take(ESTIMATE_THRESHOLD as int)
    } else {
        password
    };
    first_piece(head, seq!['\0'])
}

/// The text the strength estimator is given (see `estimator_input`).
pub fn zxcvbn_input(password: &str) -> (r: String)
    ensures
        r@ == estimator_input(password@),
        no_nul(r@),
{
    let cs = chars_of(password);
    let head = if cs.len() > ESTIMATE_THRESHOLD {
        slice_chars(cs.as_slice(), 0, ESTIMATE_THRESHOLD)
    } else {
        cs
    };
    let cut = match find_char(head.as_slice(), '\0', 0) {
        Some(k) => k,
        None => head.len(),
    };
    let piece = slice_chars(head.as_slice(), 0, cut);
    proof {
        crate::rx::entropy::lemma_first_nul(head@, cut as int);
    }
    string_of(piece.as_slice())
}

/// The part before the first NUL, found by a scan.
proof fn lemma_first_nul(s: Seq<char>, cut: int)
    requires
        0 <= cut <= s.len(),
        cut < s.len() ==> s[cut] == '\0',
        forall|j: int| 0 <= j < cut ==> s[j] != '\0',
    ensures
        first_piece(s, seq!['\0']) == s.take(cut),
        forall|j: int| 0 <= j < cut ==> s.take(cut)[j] != '\0',
{
    let needle = seq!['\0'];
    if cut < s.len() {
        assert(s.subrange(cut, cut + 1) =~= needle);
        assert forall|j: int| 0 <= j < cut implies !crate::text::occurs_at(s, needle, j) by {
            assert(s.subrange(j, j + 1)[0] == s[j]);
        }
        crate::mirror::cargo_files::lemma_first_occurrence(s, needle, cut);
    } else {
        assert forall|j: int| !crate::text::occurs_at(s, needle, j) by {
            if crate::text::occurs_at(s, needle, j) {
                assert(s.subrange(j, j + 1)[0] == s[j]);
            }
        }
        assert(s.take(cut) =~= s);
    }
}

} // verus!
