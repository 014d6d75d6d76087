//! One-time passwords of entries: standard TOTP and Steam's variant.
use vstd::prelude::*;
use crate::outside::{
    base32_decoded, decode_secret, humanize_seconds, humanized_seconds, parse_uuid, querify, querify_pairs,
    steam_code, steam_code_at, totp_code, totp_digits, totp_parses, totp_period, unix_now, uri_query, uri_query_of,
    uuid_parse, ParsedTotp,
};
use crate::rx::rx_db::{value_text_opt, RxDatabase};
use crate::rx::rx_entry::{RxEntry, RxTotp};
use crate::text::{chars_of, chars_starts_with, split_pieces, starts_with, str_eq, to_owned_string};

verus! {

/// Why no one-time password could be produced.
#[derive(Debug, Clone, Copy, PartialEq, Eq, Structural)]
pub enum OtpError {
    /// The text is no UUID.
    BadUuid,
    /// No entry has the UUID.
    NotFound,
    /// The entry's OTP setting is no valid `otpauth://` URL.
    BadOtp,
    /// The OTP's period is zero.
    ZeroPeriod,
    /// The OTP asks for more digits than a 64-bit code holds (more than 19).
    TooManyDigits,
    /// A Steam code was asked of an entry that has no Steam OTP.
    NotSteam,
    /// The Steam OTP setting is no URI.
    BadUri,
    /// The Steam OTP setting has no query.
    NoQuery,
    /// The Steam OTP setting's query has no secret.
    NoSecret,
    /// The Steam secret is no base32 text.
    BadSecret,
    /// The system clock is before 1970.
    Clock,
}

/// The text of an entry's OTP setting, empty when it has none.
pub open spec fn otp_text(e: RxEntry) -> Seq<char> {
    match value_text_opt(e.raw_otp_value) {
        Some(t) => t,
        None => Seq::empty(),
    }
}

/// The OTP setting is Steam's.
pub open spec fn is_steam(e: RxEntry) -> bool {
    starts_with(otp_text(e), "otpauth://totp/Steam:"@)
}

/// The value of the first `secret` pair of a query.
pub open spec fn first_secret(pairs: Seq<(Seq<char>, Seq<char>)>) -> Option<Seq<char>>
    decreases pairs.len(),
{
    if pairs.len() == 0 {
        None
    } else if pairs[0].0 == "secret"@ {
        Some(pairs[0].1)
    } else {
        first_secret(pairs.drop_first())
    }
}

/// The Steam code of an entry at a time: read the secret from the query of its OTP URI,
/// decode it, generate the code.
pub open spec fn steam_digits(e: RxEntry, time: u64) -> Result<Seq<char>, OtpError> {
    if !is_steam(e) {
        Err(OtpError::NotSteam)
    } else {
        match uri_query_of(otp_text(e)) {
            None => Err(OtpError::BadUri),
            Some(None) => Err(OtpError::NoQuery),
            Some(Some(q)) => match first_secret(querify_pairs(split_pieces(q, '&'))) {
                None => Err(OtpError::NoSecret),
                Some(secret) => match base32_decoded(secret) {
                    None => Err(OtpError::BadSecret),
                    Some(bytes) => Ok(steam_code(bytes, time)),
                },
            },
        }
    }
}

/// The one-time password of an entry at a time: the TOTP code (or the Steam code for a
/// Steam setting) and how long it stays valid, in words.
pub open spec fn totp_result(e: RxEntry, time: u64) -> Result<(Seq<char>, Seq<char>), OtpError> {
    let raw = otp_text(e);
    if !totp_parses(raw) {
        Err(OtpError::BadOtp)
    } else {
        let valid_for = humanized_seconds((totp_period(raw) - time % totp_period(raw)) as u64);
        if is_steam(e) {
            match steam_digits(e, time) {
                Ok(code) => Ok((code, valid_for)),
                Err(err) => Err(err),
            }
        } else {
            Ok((totp_code(raw, time), valid_for))
        }
    }
}

/// The result of an OTP computation as mathematical values.
pub open spec fn totp_view(r: Result<RxTotp, OtpError>) -> Result<(Seq<char>, Seq<char>), OtpError> {
    match r {
        Ok(t) => Ok((t.code@, t.valid_for@)),
        Err(e) => Err(e),
    }
}

impl RxEntry {
    /// The text of this entry's OTP setting, empty when it has none.
    fn otp_setting(&self) -> (r: String)
        ensures
            r@ == otp_text(*self),
    {
        match RxEntry::text_of(self.raw_otp_value()) {
            Some(t) => t,
            None => String::new(),
        }
    }

    /// This entry's OTP setting is Steam's.
    pub fn has_steam_otp(&self) -> (r: bool)
        ensures
            r == is_steam(*self),
    {
        let raw = self.otp_setting();
        let rc = chars_of(raw.as_str());
        let prefix = chars_of("otpauth://totp/Steam:");
        chars_starts_with(rc.as_slice(), prefix.as_slice())
    }

    /// The Steam code of this entry at the given time (see `steam_digits`).
    pub fn steam_otp_digits_at(&self, time: u64) -> (r: Result<String, OtpError>)
        ensures
            match r {
                Ok(code) => steam_digits(*self, time) == Ok::<Seq<char>, OtpError>(code@),
                Err(e) => steam_digits(*self, time) == Err::<Seq<char>, OtpError>(e),
            },
    {
        if !self.has_steam_otp() {
            return Err(OtpError::NotSteam);
        }
        let raw = self.otp_setting();
        let query = match uri_query(raw.as_str()) {
            None => return Err(OtpError::BadUri),
            Some(None) => return Err(OtpError::NoQuery),
            Some(Some(q)) => q,
        };
        let pairs = querify(query.as_str());
        let ghost pv = pairs@.map_values(|p: (String, String)| (p.0@, p.1@));
        let mut found: Option<usize> = None;
        let mut i: usize = 0;
        assert(pv.skip(0) =~= pv);
        while i < pairs.len() && found.is_none()
            invariant
                pv == pairs@.map_values(|p: (String, String)| (p.0@, p.1@)),
                i <= pairs@.len(),
                found is None ==> first_secret(pv) == first_secret(pv.skip(i as int)),
                found matches Some(k) ==> k < pairs@.len() && first_secret(pv) == Some(pv[k as int].1),
            decreases pairs@.len() - i,
        {
            assert(pv.skip(i as int)[0] == (pairs@[i as int].0@, pairs@[i as int].1@));
            assert(pv.skip(i as int).drop_first() =~= pv.skip(i + 1));
            if str_eq(pairs[i].0.as_str(), "secret") {
                found = Some(i);
            }
            i = i + 1;
        }
        let secret = match found {
            Some(k) => pairs[k].1.clone(),
            None => {
                assert(pv.skip(pairs@.len() as int) =~= Seq::<(Seq<char>, Seq<char>)>::empty());
                return Err(OtpError::NoSecret);
            },
        };
        let bytes = match decode_secret(secret.as_str()) {
            Some(b) => b,
            None => return Err(OtpError::BadSecret),
        };
        Ok(steam_code_at(bytes.as_slice(), time))
    }

    /// The one-time password of this entry at the given time (see `totp_result`). The
    /// period of its TOTP must not be zero, and it must ask for at most 19 digits.
    pub fn totp_at(&self, time: u64) -> (r: Result<RxTotp, OtpError>)
        requires
            totp_parses(otp_text(*self)) ==> totp_period(otp_text(*self)) > 0 && totp_digits(otp_text(*self)) <= 19,
        ensures
            totp_view(r) == totp_result(*self, time),
    {
        let raw = self.otp_setting();
        let otp = match ParsedTotp::parse(raw.as_str()) {
            Some(o) => o,
            None => return Err(OtpError::BadOtp),
        };
        let (code, valid_secs) = otp.value_at(time);
        let valid_for = humanize_seconds(valid_secs);
        if self.has_steam_otp() {
            match self.steam_otp_digits_at(time) {
                Ok(steam) => Ok(RxTotp { code: steam, valid_for }),
                Err(e) => Err(e),
            }
        } else {
            Ok(RxTotp { code, valid_for })
        }
    }

    /// The one-time password of this entry now (see `totp_outcome`): the setting is checked
    /// first, then the clock is read.
    pub fn totp(&self) -> (r: Result<RxTotp, OtpError>)
        ensures
            totp_outcome(*self, r),
    {
        let raw = self.otp_setting();
        match ParsedTotp::parse(raw.as_str()) {
            Some(o) => {
                if o.period() == 0 {
                    return Err(OtpError::ZeroPeriod);
                }
                if o.digits() > 19 {
                    return Err(OtpError::TooManyDigits);
                }
            },
            None => {
                return Err(OtpError::BadOtp);
            },
        }
        let time = match unix_now() {
            Some(t) => t,
            None => return Err(OtpError::Clock),
        };
        let r = self.totp_at(time);
        proof {
            assert(totp_view(r) == totp_result(*self, time));
        }
        r
    }
}

/// What asking an entry for its one-time password now gives: `BadOtp` for a setting that
/// does not parse, `ZeroPeriod` for a period of zero, `TooManyDigits` for more than 19
/// digits; otherwise an error when the clock is before 1970, or the result at some time.
pub open spec fn totp_outcome(e: RxEntry, r: Result<RxTotp, OtpError>) -> bool {
    let t = otp_text(e);
    if !totp_parses(t) {
        r matches Err(OtpError::BadOtp)
    } else if totp_period(t) == 0 {
        r matches Err(OtpError::ZeroPeriod)
    } else if totp_digits(t) > 19 {
        r matches Err(OtpError::TooManyDigits)
    } else {
        r matches Err(OtpError::Clock) || exists|time: u64| totp_view(r) == #[trigger] totp_result(e, time)
    }
}

impl RxDatabase {
    /// The one-time password of the entry whose UUID is given as text, now.
    pub fn get_totp(&self, entry_uuid: &str) -> (r: Result<RxTotp, OtpError>)
        requires
            self.wf(),
        ensures
            match uuid_parse(entry_uuid@) {
                None => r matches Err(OtpError::BadUuid),
                Some(u) => match self.entry_with(u) {
                    None => r matches Err(OtpError::NotFound),
                    Some(e) => totp_outcome(e, r),
                },
            },
    {
        let u = match parse_uuid(entry_uuid) {
            Some(u) => u,
            None => return Err(OtpError::BadUuid),
        };
        match self.get_entry(u) {
            Some(e) => e.totp(),
            None => Err(OtpError::NotFound),
        }
    }
}

} // verus!
