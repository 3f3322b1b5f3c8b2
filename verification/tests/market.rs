use poe_gem_calculator::leagues::get_fallback_leagues;
use poe_gem_calculator::leagues::is_economy_league;
use poe_gem_calculator::leagues::leagues_from_official;
use poe_gem_calculator::leagues::leagues_or_fallback;
use poe_gem_calculator::leagues::LeagueRule;
use poe_gem_calculator::leagues::OfficialLeague;
use poe_gem_calculator::models::get_gem_color;
use poe_gem_calculator::models::get_gems_by_color;
use poe_gem_calculator::models::GemColor;
use poe_gem_calculator::skill_gems::favorable_outcome_counts;
use poe_gem_calculator::skill_gems::gem_matches_filter;
use poe_gem_calculator::skill_gems::skill_gems_cache_key;
use poe_gem_calculator::skill_gems::total_outcome_count;

fn league(id: &str, rules: Option<Vec<&str>>) -> OfficialLeague {
    OfficialLeague {
        id: id.to_string(),
        rules: rules.map(|rs| rs.into_iter().map(|r| LeagueRule { id: r.to_string() }).collect()),
    }
}

#[test]
fn economy_league_filter_excludes_variants() {
    assert!(is_economy_league(&league("Standard", None)));
    assert!(is_economy_league(&league("Settlers", Some(vec!["Hardcore"]))));
    assert!(!is_economy_league(&league("SSF Settlers", None)));
    assert!(!is_economy_league(&league("Solo Self-Found", None)));
    assert!(!is_economy_league(&league("Ruthless Settlers", None)));
}

#[test]
fn official_leagues_convert_and_filter() {
    let listing = vec![
        league("Settlers", None),
        league("Hardcore Settlers", Some(vec!["Hardcore"])),
        league("SSF Settlers", None),
        league("Ruthless Settlers", None),
        league("Standard", Some(vec![])),
    ];
    let r = leagues_from_official(listing);
    assert_eq!(r.leagues.len(), 3);
    assert_eq!(r.leagues[0].name, "Settlers");
    assert_eq!(r.leagues[0].display_name.as_deref(), Some("Settlers"));
    assert!(!r.leagues[0].hardcore);
    assert!(r.leagues[0].indexed);
    assert_eq!(r.leagues[1].name, "Hardcore Settlers");
    assert!(r.leagues[1].hardcore);
    assert_eq!(r.leagues[2].name, "Standard");
    assert!(!r.leagues[2].hardcore);
}

#[test]
fn fallback_leagues_are_the_permanent_pair() {
    let r = get_fallback_leagues();
    assert_eq!(r.leagues.len(), 2);
    assert_eq!(r.leagues[0].name, "Standard");
    assert!(!r.leagues[0].hardcore);
    assert_eq!(r.leagues[1].name, "Hardcore");
    assert!(r.leagues[1].hardcore);

    let fell_back = leagues_or_fallback(None);
    assert_eq!(fell_back.leagues.len(), 2);
    let fetched = leagues_or_fallback(Some(vec![league("Settlers", None)]));
    assert_eq!(fetched.leagues.len(), 1);
    assert_eq!(fetched.leagues[0].name, "Settlers");
}

#[test]
fn gem_colors_cover_the_three_lists() {
    assert!(matches!(get_gem_color("Cleave of Rage"), Some(GemColor::Red)));
    assert!(matches!(get_gem_color("Blade Flurry of Incision"), Some(GemColor::Green)));
    assert!(matches!(get_gem_color("Arc of Oscillating"), Some(GemColor::Blue)));
    assert!(get_gem_color("Fireball").is_none());

    assert_eq!(get_gems_by_color(&GemColor::Red).len(), 32);
    assert_eq!(get_gems_by_color(&GemColor::Green).len(), 72);
    assert_eq!(get_gems_by_color(&GemColor::Blue).len(), 80);
    assert!(get_gems_by_color(&GemColor::Red).contains(&"Cleave of Rage"));

    assert_eq!(GemColor::Red.as_str(), "red");
    assert_eq!(GemColor::Green.as_str(), "green");
    assert_eq!(GemColor::Blue.as_str(), "blue");
}

#[test]
fn gem_filter_matches_the_selection_rules() {
    // Level 1, quality 0: unlisted level and quality pass, uncorrupted only.
    assert!(gem_matches_filter(None, None, None, true, 1, 0));
    assert!(gem_matches_filter(Some(1), Some(0), Some(false), true, 1, 0));
    assert!(!gem_matches_filter(Some(2), None, None, true, 1, 0));
    assert!(!gem_matches_filter(None, Some(20), None, true, 1, 0));
    assert!(!gem_matches_filter(None, None, Some(true), true, 1, 0));
    assert!(!gem_matches_filter(None, None, None, false, 1, 0));
    // Past level 20 only corrupted gems qualify.
    assert!(gem_matches_filter(Some(21), Some(20), Some(true), true, 21, 20));
    assert!(!gem_matches_filter(Some(21), Some(20), None, true, 21, 20));
    // An explicit quality must match exactly.
    assert!(gem_matches_filter(Some(20), Some(23), Some(true), true, 20, 23));
    assert!(!gem_matches_filter(Some(20), None, Some(true), true, 20, 23));
}

#[test]
fn outcome_counts_match_the_closed_form() {
    assert_eq!(total_outcome_count(5), 10);
    assert_eq!(total_outcome_count(3), 1);
    assert_eq!(total_outcome_count(2), 0);
    assert_eq!(favorable_outcome_counts(5), vec![6, 3, 1]);
    assert_eq!(favorable_outcome_counts(3), vec![1]);
    assert!(favorable_outcome_counts(2).is_empty());

    // The per-gem counts exhaust the outcomes.
    let n = 40;
    let total = total_outcome_count(n);
    let sum: u64 = favorable_outcome_counts(n).into_iter().sum();
    assert_eq!(sum, total);
}

#[test]
fn skill_gems_cache_key_embeds_the_league() {
    assert_eq!(skill_gems_cache_key("Standard"), "skillGems_Standard");
    assert_eq!(skill_gems_cache_key(""), "skillGems_");
}
