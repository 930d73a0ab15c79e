//! Validated run configuration.
//!
//! The surrounding program reads the raw configuration (a file, command
//! line arguments); this module decides whether it is acceptable: the
//! token, record name and zone identifier must be non-empty, and every
//! caller-supplied provider must be a well-formed absolute URL. Accepted
//! providers come back in normalized URL form, order kept.

use vstd::prelude::*;

use crate::urls::normalize_url;
use crate::urls::url_norm;

verus! {

/// A validated configuration: credential token, record name, zone
/// identifier, and the caller-supplied provider endpoints in normalized
/// URL form.
#[derive(Clone, Debug)]
pub struct Args {
    pub token: String,
    pub record: String,
    pub zone_id: String,
    pub providers: Vec<String>,
}

/// Why a configuration was refused.
#[derive(Clone, Copy, Debug, PartialEq, Eq)]
pub enum ArgsError {
    EmptyToken,
    EmptyRecord,
    EmptyZoneId,
    InvalidProviderUrl(url::ParseError),
}

/// Every required field is non-empty and every provider parses as an
/// absolute URL.
pub open spec fn acceptable(
    token: Seq<char>,
    record: Seq<char>,
    zone_id: Seq<char>,
    providers: Seq<String>,
) -> bool {
    &&& token.len() > 0
    &&& record.len() > 0
    &&& zone_id.len() > 0
    &&& (forall|i: int| 0 <= i < providers.len() ==> url_norm(providers[i]@) is Some)
}

impl Args {
    /// Accept a configuration exactly when every required field is
    /// non-empty and every provider is a well-formed absolute URL.
    /// Fields are checked in order; the first offence is reported.
    pub fn new(token: String, record: String, zone_id: String, providers: Vec<String>) -> (r:
        Result<Args, ArgsError>)
        ensures
            r is Ok <==> acceptable(token@, record@, zone_id@, providers@),
            r is Ok ==> ({
                let a = r->Ok_0;
                &&& a.token@ == token@
                &&& a.record@ == record@
                &&& a.zone_id@ == zone_id@
                &&& a.providers@.len() == providers@.len()
                &&& (forall|i: int|
                    0 <= i < providers@.len() ==> Some(a.providers@[i]@) == url_norm(
                        providers@[i]@,
                    ))
            }),
            token@.len() == 0 ==> r == Err::<Args, ArgsError>(ArgsError::EmptyToken),
            token@.len() > 0 && record@.len() == 0 ==> r == Err::<Args, ArgsError>(
                ArgsError::EmptyRecord,
            ),
            token@.len() > 0 && record@.len() > 0 && zone_id@.len() == 0 ==> r == Err::<
                Args,
                ArgsError,
            >(ArgsError::EmptyZoneId),
            r is Err && token@.len() > 0 && record@.len() > 0 && zone_id@.len() > 0 ==> r
                ->Err_0 is InvalidProviderUrl,
    {
        if token.as_str().unicode_len() == 0 {
            return Err(ArgsError::EmptyToken);
        }
        if record.as_str().unicode_len() == 0 {
            return Err(ArgsError::EmptyRecord);
        }
        if zone_id.as_str().unicode_len() == 0 {
            return Err(ArgsError::EmptyZoneId);
        }
        let mut normalized: Vec<String> = Vec::new();
        let mut i: usize = 0;
        while i < providers.len()
            invariant
                token@.len() > 0,
                record@.len() > 0,
                zone_id@.len() > 0,
                i <= providers@.len(),
                normalized@.len() == i,
                forall|k: int|
                    0 <= k < i ==> url_norm(providers@[k]@) is Some && Some(normalized@[k]@)
                        == url_norm(providers@[k]@),
            decreases providers@.len() - i,
        {
            match normalize_url(providers[i].as_str()) {
                Ok(u) => {
                    normalized.push(u);
                },
                Err(e) => {
                    return Err(ArgsError::InvalidProviderUrl(e));
                },
            }
            i = i + 1;
        }
        Ok(Args { token, record, zone_id, providers: normalized })
    }
}

} // verus!
