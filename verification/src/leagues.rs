//! League selection: which of the officially listed leagues are relevant
//! for economy tracking, how an official league becomes a service league,
//! and the permanent fallback used when the official listing cannot be had.

use vstd::prelude::*;
use vstd::string::StringExecFns;

use crate::models::League;
use crate::models::LeaguesApiResponse;
use crate::strutil::contains_seq;
use crate::strutil::str_contains;
use crate::strutil::str_eq;

verus! {

/// One rule attached to an official league listing.
#[derive(Debug, Clone)]
pub struct LeagueRule {
    pub id: String,
}

/// A league as the official listing reports it: its identifier and the
/// rules in force, where any are given.
#[derive(Debug, Clone)]
pub struct OfficialLeague {
    pub id: String,
    pub rules: Option<Vec<LeagueRule>>,
}

/// A league is relevant for economy tracking unless it is a solo
/// self-found or Ruthless variant, which carry no economy data.
pub open spec fn is_economy_spec(id: Seq<char>) -> bool {
    !(contains_seq(id, "SSF"@) || contains_seq(id, "Solo Self-Found"@) || contains_seq(
        id,
        "Ruthless"@,
    ))
}

/// Whether an official league is relevant for economy tracking.
pub fn is_economy_league(league: &OfficialLeague) -> (r: bool)
    ensures
        r == is_economy_spec(league.id@),
{
    if str_contains(league.id.as_str(), "SSF") {
        return false;
    }
    if str_contains(league.id.as_str(), "Solo Self-Found") {
        return false;
    }
    if str_contains(league.id.as_str(), "Ruthless") {
        return false;
    }
    true
}

/// An official league is hardcore when one of its rules is `Hardcore`.
pub open spec fn hardcore_spec(l: OfficialLeague) -> bool {
    match l.rules {
        Some(rs) => exists|i: int| 0 <= i < rs@.len() && (#[trigger] rs@[i]).id@ == "Hardcore"@,
        None => false,
    }
}

/// The service league an official league becomes: named by its identifier,
/// displayed under the same identifier, marked hardcore by its rules, and
/// always indexed.
pub open spec fn league_of_official(l: OfficialLeague) -> League {
    League { name: l.id, display_name: Some(l.id), hardcore: hardcore_spec(l), indexed: true }
}

/// The service leagues an official listing yields: the economy-relevant
/// ones, each converted, in listing order.
pub open spec fn economy_leagues_spec(ls: Seq<OfficialLeague>) -> Seq<League> {
    ls.filter(|l: OfficialLeague| is_economy_spec(l.id@)).map_values(
        |l: OfficialLeague| league_of_official(l),
    )
}

fn league_is_hardcore(l: &OfficialLeague) -> (r: bool)
    ensures
        r == hardcore_spec(*l),
{
    match &l.rules {
        None => false,
        Some(rs) => {
            let n = rs.len();
            let mut i: usize = 0;
            while i < n
                invariant
                    i <= n,
                    n == rs@.len(),
                    l.rules == Some(*rs),
                    forall|j: int| 0 <= j < i ==> (#[trigger] rs@[j]).id@ != "Hardcore"@,
                decreases n - i,
            {
                if str_eq(rs[i].id.as_str(), "Hardcore") {
                    proof {
                        let v = l.rules->Some_0;
                        assert(v == *rs);
                        assert(0 <= i < v@.len() && v@[i as int].id@ == "Hardcore"@);
                        assert(hardcore_spec(*l));
                    }
                    return true;
                }
                i = i + 1;
            }
            false
        },
    }
}

/// Converts an official listing into the served league list, keeping the
/// economy-relevant leagues in order.
pub fn leagues_from_official(official: Vec<OfficialLeague>) -> (r: LeaguesApiResponse)
    ensures
        r.leagues@ == economy_leagues_spec(official@),
{
    let ghost pred = |l: OfficialLeague| is_economy_spec(l.id@);
    let n = official.len();
    let mut leagues: Vec<League> = Vec::new();
    let mut i: usize = 0;
    while i < n
        invariant
            i <= n,
            n == official@.len(),
            forall|l: OfficialLeague| #[trigger] pred(l) == is_economy_spec(l.id@),
            leagues@ == official@.take(i as int).filter(pred).map_values(
                |l: OfficialLeague| league_of_official(l),
            ),
        decreases n - i,
    {
        proof {
            reveal(Seq::filter);
            assert(official@.take(i + 1).drop_last() =~= official@.take(i as int));
            assert(official@.take(i + 1).last() == official@[i as int]);
        }
        let keep = is_economy_league(&official[i]);
        if keep {
            let hc = league_is_hardcore(&official[i]);
            let converted = League {
                name: official[i].id.clone(),
                display_name: Some(official[i].id.clone()),
                hardcore: hc,
                indexed: true,
            };
            leagues.push(converted);
            proof {
                assert(converted == league_of_official(official@[i as int]));
                assert(leagues@ =~= official@.take(i + 1).filter(pred).map_values(
                    |l: OfficialLeague| league_of_official(l),
                ));
            }
        } else {
            proof {
                assert(leagues@ =~= official@.take(i + 1).filter(pred).map_values(
                    |l: OfficialLeague| league_of_official(l),
                ));
            }
        }
        i = i + 1;
    }
    proof {
        assert(official@.take(n as int) =~= official@);
    }
    LeaguesApiResponse { leagues }
}

/// Whether a listing is exactly the permanent fallback: Standard and
/// Hardcore, both indexed, the second hardcore.
pub open spec fn is_fallback_leagues(r: LeaguesApiResponse) -> bool {
    &&& r.leagues@.len() == 2
    &&& r.leagues@[0].name@ == "Standard"@
    &&& r.leagues@[0].display_name matches Some(d) && d@ == "Standard"@
    &&& !r.leagues@[0].hardcore
    &&& r.leagues@[0].indexed
    &&& r.leagues@[1].name@ == "Hardcore"@
    &&& r.leagues@[1].display_name matches Some(d) && d@ == "Hardcore"@
    &&& r.leagues@[1].hardcore
    &&& r.leagues@[1].indexed
}

/// The permanent leagues, served only when the official listing cannot be
/// had: Standard and Hardcore always exist.
pub fn get_fallback_leagues() -> (r: LeaguesApiResponse)
    ensures
        is_fallback_leagues(r),
{
    let mut leagues: Vec<League> = Vec::new();
    leagues.push(
        League {
            name: String::from_str("Standard"),
            display_name: Some(String::from_str("Standard")),
            hardcore: false,
            indexed: true,
        },
    );
    leagues.push(
        League {
            name: String::from_str("Hardcore"),
            display_name: Some(String::from_str("Hardcore")),
            hardcore: true,
            indexed: true,
        },
    );
    LeaguesApiResponse { leagues }
}

/// The listing the service serves for a fetch outcome: the converted
/// economy leagues where the official listing arrived, the permanent
/// fallback where it did not.
pub fn leagues_or_fallback(fetched: Option<Vec<OfficialLeague>>) -> (r: LeaguesApiResponse)
    ensures
        match fetched {
            Some(official) => r.leagues@ == economy_leagues_spec(official@),
            None => is_fallback_leagues(r),
        },
{
    match fetched {
        Some(official) => leagues_from_official(official),
        None => get_fallback_leagues(),
    }
}

} // verus!
