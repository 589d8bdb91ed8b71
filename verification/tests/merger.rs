use metrics_merger::assemble::assemble;
use metrics_merger::config::Configuration;
use metrics_merger::group::SourceGroup;
use metrics_merger::group::split_on_commas;
use metrics_merger::group::trim;
use metrics_merger::outcome::FetchOutcome;
use metrics_merger::resolve::GroupResolver;
use metrics_merger::source::Scheme;
use metrics_merger::source::classify;
use metrics_merger::source::file_path;
use metrics_merger::source::starts_with;

#[test]
fn zero_groups_give_empty_body() {
    let outcomes: Vec<FetchOutcome> = Vec::new();
    assert_eq!(assemble(&outcomes), "");
}

#[test]
fn all_failed_groups_give_empty_body() {
    let outcomes = vec![FetchOutcome::Empty, FetchOutcome::Empty, FetchOutcome::Empty];
    assert_eq!(assemble(&outcomes), "");
}

#[test]
fn second_alternative_wins_and_third_is_not_attempted() {
    let group = SourceGroup::parse("http://one,http://two,http://three");
    let mut resolver = GroupResolver::start(group);
    assert_eq!(resolver.pending().unwrap().as_str(), "http://one");
    resolver.record(FetchOutcome::Empty);
    assert_eq!(resolver.pending().unwrap().as_str(), "http://two");
    resolver.record(FetchOutcome::Success(String::from("B")));
    assert!(resolver.pending().is_none());
    assert_eq!(resolver.result().into_text(), "B");
}

#[test]
fn exhausted_group_resolves_to_the_empty_outcome() {
    let group = SourceGroup::parse("http://one,http://two");
    let mut resolver = GroupResolver::start(group);
    resolver.record(FetchOutcome::Empty);
    resolver.record(FetchOutcome::Empty);
    assert!(resolver.pending().is_none());
    assert!(!resolver.result().is_success());
}

#[test]
fn failed_group_leaves_no_blank_line() {
    let outcomes = vec![
        FetchOutcome::Success(String::from("A")),
        FetchOutcome::Empty,
        FetchOutcome::Success(String::from("C")),
    ];
    assert_eq!(assemble(&outcomes), "A\nC");
}

#[test]
fn successful_bodies_keep_configuration_order() {
    let outcomes = vec![
        FetchOutcome::Success(String::from("one")),
        FetchOutcome::Success(String::from("two")),
        FetchOutcome::Success(String::from("three")),
    ];
    assert_eq!(assemble(&outcomes), "one\ntwo\nthree");
}

#[test]
fn repeated_identical_requests_merge_identically() {
    let tokens = vec![String::from("http://a,http://b"), String::from("file:///c")];
    let mut bodies: Vec<String> = Vec::new();
    for _ in 0..2 {
        let config = Configuration::from_tokens(&tokens, 3);
        let mut outcomes: Vec<FetchOutcome> = Vec::new();
        let mut i: usize = 0;
        while i < config.group_count() {
            let mut resolver = GroupResolver::start(config.group(i).clone());
            while resolver.pending().is_some() {
                let upstream = if i == 0 { String::new() } else { String::from("C") };
                resolver.record(FetchOutcome::from_text(upstream));
            }
            outcomes.push(resolver.result());
            i += 1;
        }
        bodies.push(assemble(&outcomes));
    }
    assert_eq!(bodies[0], bodies[1]);
    assert_eq!(bodies[0], "C");
}

#[test]
fn file_source_with_content_yields_that_body() {
    assert_eq!(classify("file:///tmp/exists.txt"), Scheme::File);
    assert_eq!(file_path("file:///tmp/exists.txt"), "/tmp/exists.txt");
    let group = SourceGroup::parse("file:///tmp/exists.txt");
    let mut resolver = GroupResolver::start(group);
    resolver.record(FetchOutcome::from_text(String::from("X")));
    assert!(resolver.pending().is_none());
    let outcomes = vec![resolver.result()];
    assert_eq!(assemble(&outcomes), "X");
}

#[test]
fn missing_file_contributes_nothing() {
    let group = SourceGroup::parse("file:///tmp/missing.txt");
    let mut resolver = GroupResolver::start(group);
    resolver.record(FetchOutcome::from_text(String::new()));
    assert!(resolver.pending().is_none());
    let outcomes = vec![resolver.result()];
    assert_eq!(assemble(&outcomes), "");
}

#[test]
fn timed_out_alternative_falls_back_to_the_next() {
    let group = SourceGroup::parse("http://slow,file:///fallback");
    let mut resolver = GroupResolver::start(group);
    assert_eq!(resolver.pending().unwrap().as_str(), "http://slow");
    resolver.record(FetchOutcome::Empty);
    assert_eq!(resolver.pending().unwrap().as_str(), "file:///fallback");
    resolver.record(FetchOutcome::from_text(String::from("late")));
    assert_eq!(resolver.result().into_text(), "late");
}

#[test]
fn schemes_are_classified_by_prefix() {
    assert_eq!(classify("http://host/metrics"), Scheme::Http);
    assert_eq!(classify("https://host/metrics"), Scheme::Https);
    assert_eq!(classify("file:///metrics.txt"), Scheme::File);
    assert_eq!(classify("ftp://host"), Scheme::Invalid);
    assert_eq!(classify("http:/host"), Scheme::Invalid);
    assert_eq!(classify(""), Scheme::Invalid);
    assert_eq!(classify("http://"), Scheme::Http);
}

#[test]
fn prefix_check_handles_short_strings() {
    assert!(starts_with("http://x", "http://"));
    assert!(!starts_with("http:", "http://"));
    assert!(starts_with("anything", ""));
}

#[test]
fn token_is_trimmed_then_split_on_commas() {
    assert_eq!(trim("  a,b \n"), "a,b");
    assert_eq!(trim("x"), "x");
    assert_eq!(trim("   "), "");
    let pieces = split_on_commas("a,b,,c");
    let expected = vec![
        String::from("a"),
        String::from("b"),
        String::from(""),
        String::from("c"),
    ];
    assert_eq!(pieces, expected);
    assert_eq!(split_on_commas(""), vec![String::from("")]);
}

#[test]
fn group_token_parses_into_alternatives() {
    let group = SourceGroup::parse(" http://a,file:///b ");
    assert_eq!(group.len(), 2);
    assert_eq!(group.alternative(0).as_str(), "http://a");
    assert_eq!(group.alternative(1).as_str(), "file:///b");
}

#[test]
fn blank_token_parses_into_one_empty_alternative() {
    let group = SourceGroup::parse("   ");
    assert_eq!(group.len(), 1);
    assert_eq!(group.alternative(0).as_str(), "");
}

#[test]
fn configuration_preserves_group_order_and_timeout() {
    let tokens = vec![
        String::from("http://a"),
        String::from("http://b,file:///c"),
    ];
    let config = Configuration::from_tokens(&tokens, 7);
    assert_eq!(config.group_count(), 2);
    assert_eq!(config.timeout_secs(), 7);
    assert_eq!(config.group(0).len(), 1);
    assert_eq!(config.group(0).alternative(0).as_str(), "http://a");
    assert_eq!(config.group(1).alternative(1).as_str(), "file:///c");
}

#[test]
fn empty_fetched_text_collapses_to_the_empty_outcome() {
    assert!(!FetchOutcome::from_text(String::new()).is_success());
    assert!(FetchOutcome::from_text(String::from("x")).is_success());
    assert_eq!(FetchOutcome::from_text(String::new()).into_text(), "");
    assert_eq!(FetchOutcome::from_text(String::from("body")).into_text(), "body");
}
