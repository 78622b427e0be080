use spin_cache::ingest::{
    commit_shows, plan_shows, status_of, update_shows, update_spins_no_reply, upstream_url,
    IngestError, SPINS_COUNT, SPINS_ENDPOINT,
};
use spin_cache::json::Json;
use spin_cache::normalize::{decimal_text, label};
use spin_cache::parse::parse_json;
use spin_cache::store::{blank_db, Store};

fn keys(v: &Json) -> Vec<String> {
    match v {
        Json::Object(m) => m.iter().map(|(k, _)| k.clone()).collect(),
        _ => panic!("not an object"),
    }
}

fn member<'a>(v: &'a Json, key: &str) -> Option<&'a Json> {
    match v {
        Json::Object(m) => m.iter().find(|(k, _)| k == key).map(|(_, x)| x),
        _ => None,
    }
}

fn text(v: &Json) -> &str {
    match v {
        Json::Str(s) => s.as_str(),
        _ => panic!("not a string"),
    }
}

fn spins_body(n: usize) -> String {
    let records: Vec<String> = (0..n)
        .map(|i| {
            format!(
                "{{\"id\": {}, \"song\": \"song {}\", \"_links\": {{\"self\": {{\"href\": \"https://example.org/spins/{}\"}}}}}}",
                i, i, i
            )
        })
        .collect();
    format!("{{\"items\": [{}], \"_meta\": {{\"totalCount\": {}}}}}", records.join(", "), n)
}

fn shows_body(with_personas: bool) -> String {
    let links = |i: usize| {
        if with_personas {
            format!(
                "{{\"personas\": [{{\"href\": \"https://example.org/personas/{}\"}}]}}",
                i
            )
        } else {
            "{\"self\": {\"href\": \"https://example.org/shows\"}}".to_string()
        }
    };
    format!(
        "{{\"items\": [{{\"title\": \"Morning\", \"_links\": {}}}, {{\"title\": \"Evening\", \"_links\": {}}}]}}",
        links(1),
        links(2)
    )
}

fn committed_spins(n: usize) -> Store {
    let mut db = blank_db();
    assert_eq!(update_spins_no_reply(&mut db, Some(spins_body(n))), Ok(()));
    db
}

#[test]
fn five_records_are_keyed_by_position_and_stripped() {
    let db = committed_spins(5);
    let snap = db.read().as_ref().expect("a snapshot");
    assert_eq!(keys(snap), vec!["spin-0", "spin-1", "spin-2", "spin-3", "spin-4"]);
    for i in 0..5 {
        let rec = member(snap, &format!("spin-{}", i)).unwrap();
        assert_eq!(keys(rec), vec!["id", "song"]);
        assert_eq!(text(member(rec, "song").unwrap()), format!("song {}", i));
        match member(rec, "id").unwrap() {
            Json::Number(n) => assert_eq!(n, &i.to_string()),
            _ => panic!("id is not a number"),
        }
    }
    assert_eq!(db.version(), 1);
}

#[test]
fn empty_body_reports_empty_response_and_keeps_nothing() {
    let mut db = blank_db();
    assert_eq!(
        update_spins_no_reply(&mut db, Some(String::new())),
        Err(IngestError::EmptyResponse)
    );
    assert!(db.read().is_none());
    assert_eq!(db.version(), 0);
}

#[test]
fn empty_body_keeps_the_prior_snapshot() {
    let mut db = committed_spins(2);
    assert_eq!(
        update_spins_no_reply(&mut db, Some(String::new())),
        Err(IngestError::EmptyResponse)
    );
    assert_eq!(keys(db.read().as_ref().unwrap()), vec!["spin-0", "spin-1"]);
    assert_eq!(db.version(), 1);
}

#[test]
fn failed_fetch_reports_upstream_unavailable() {
    let mut db = committed_spins(1);
    assert_eq!(update_spins_no_reply(&mut db, None), Err(IngestError::UpstreamUnavailable));
    assert_eq!(keys(db.read().as_ref().unwrap()), vec!["spin-0"]);
}

#[test]
fn unparsable_body_is_malformed_and_keeps_the_prior_snapshot() {
    let mut db = committed_spins(3);
    assert_eq!(
        update_spins_no_reply(&mut db, Some("{\"items\": [".to_string())),
        Err(IngestError::MalformedPayload)
    );
    assert_eq!(
        update_spins_no_reply(&mut db, Some("{\"count\": 3}".to_string())),
        Err(IngestError::MalformedPayload)
    );
    assert_eq!(
        update_spins_no_reply(&mut db, Some("{\"items\": [1, 2]}".to_string())),
        Err(IngestError::MalformedPayload)
    );
    assert_eq!(keys(db.read().as_ref().unwrap()), vec!["spin-0", "spin-1", "spin-2"]);
    assert_eq!(db.version(), 1);
}

#[test]
fn empty_listing_commits_an_empty_object() {
    let mut db = blank_db();
    assert_eq!(update_spins_no_reply(&mut db, Some("{\"items\": []}".to_string())), Ok(()));
    assert!(keys(db.read().as_ref().unwrap()).is_empty());
}

#[test]
fn later_commit_replaces_earlier() {
    let mut db = committed_spins(4);
    assert_eq!(update_spins_no_reply(&mut db, Some(spins_body(2))), Ok(()));
    assert_eq!(keys(db.read().as_ref().unwrap()), vec!["spin-0", "spin-1"]);
    assert_eq!(db.version(), 2);
}

#[test]
fn shows_with_personas_commit_listing_and_djs() {
    let mut db = blank_db();
    let plan = plan_shows(Some(shows_body(true)));
    let links = plan.as_ref().map(|p| (p.first_persona.clone(), p.second_persona.clone()));
    assert_eq!(
        links.ok(),
        Some((
            "https://example.org/personas/1".to_string(),
            "https://example.org/personas/2".to_string()
        ))
    );
    let dj = |name: &str| {
        Some(format!("{{\"name\": \"{}\", \"_links\": {{\"self\": {{\"href\": \"x\"}}}}}}", name))
    };
    assert_eq!(update_shows(&mut db, plan, dj("Ann"), dj("Bo")), Ok(()));
    let snap = db.read().as_ref().unwrap();
    assert_eq!(keys(snap), vec!["show-0", "show-1", "dj-0", "dj-1"]);
    assert_eq!(keys(member(snap, "show-1").unwrap()), vec!["title"]);
    assert_eq!(text(member(member(snap, "show-1").unwrap(), "title").unwrap()), "Evening");
    assert_eq!(keys(member(snap, "dj-0").unwrap()), vec!["name"]);
    assert_eq!(text(member(member(snap, "dj-1").unwrap(), "name").unwrap()), "Bo");
}

#[test]
fn empty_shows_body_fails_and_keeps_the_snapshot() {
    let mut db = committed_spins(1);
    let plan = plan_shows(Some(String::new()));
    assert!(plan.is_err());
    assert_eq!(update_shows(&mut db, plan, None, None), Err(IngestError::EmptyResponse));
    assert_eq!(keys(db.read().as_ref().unwrap()), vec!["spin-0"]);
    assert_eq!(db.version(), 1);
}

#[test]
fn missing_persona_link_fails_the_whole_shows_ingestion() {
    let mut db = committed_spins(2);
    let plan = plan_shows(Some(shows_body(false)));
    assert_eq!(update_shows(&mut db, plan, None, None), Err(IngestError::MalformedPayload));
    assert_eq!(keys(db.read().as_ref().unwrap()), vec!["spin-0", "spin-1"]);
    assert_eq!(db.version(), 1);
}

#[test]
fn missing_persona_link_is_malformed_and_commits_nothing() {
    let db = blank_db();
    match plan_shows(Some(shows_body(false))) {
        Err(e) => assert_eq!(e, IngestError::MalformedPayload),
        Ok(_) => panic!("planned without persona links"),
    }
    assert!(db.read().is_none());
}

#[test]
fn shows_fetch_errors_come_first() {
    assert!(matches!(plan_shows(None), Err(IngestError::UpstreamUnavailable)));
    assert!(matches!(plan_shows(Some(String::new())), Err(IngestError::EmptyResponse)));
}

#[test]
fn failed_persona_fetch_is_dependent_fetch_failed() {
    let mut db = committed_spins(1);
    let plan = plan_shows(Some(shows_body(true)));
    assert_eq!(
        update_shows(&mut db, plan, Some("{\"name\": \"A\"}".to_string()), None),
        Err(IngestError::DependentFetchFailed)
    );
    assert_eq!(keys(db.read().as_ref().unwrap()), vec!["spin-0"]);
    assert_eq!(db.version(), 1);
}

#[test]
fn persona_that_is_not_a_record_is_malformed() {
    let mut db = blank_db();
    let plan = plan_shows(Some(shows_body(true)));
    assert_eq!(
        update_shows(&mut db, plan, Some("[1]".to_string()), Some("{}".to_string())),
        Err(IngestError::MalformedPayload)
    );
    assert!(db.read().is_none());
}

#[test]
fn commit_shows_needs_every_part() {
    let mut db = blank_db();
    let listing = parse_json(&shows_body(true)).unwrap();
    assert_eq!(
        commit_shows(&mut db, listing, Some(Json::Object(vec![])), None),
        Err(IngestError::MalformedPayload)
    );
    assert!(db.read().is_none());
}

#[test]
fn upstream_url_joins_endpoint_token_and_count() {
    assert_eq!(
        upstream_url(SPINS_ENDPOINT, Some("SECRET-REDACTED"), SPINS_COUNT),
        Ok("https://spinitron.com/api/spins/?access-token=SECRET-REDACTED&count=5".to_string())
    );
    assert_eq!(
        upstream_url(SPINS_ENDPOINT, None, SPINS_COUNT),
        Err(IngestError::ConfigurationMissing)
    );
}

#[test]
fn labels_are_prefix_and_decimal_position() {
    assert_eq!(decimal_text(0), "0");
    assert_eq!(decimal_text(9), "9");
    assert_eq!(decimal_text(10), "10");
    assert_eq!(decimal_text(4071), "4071");
    assert_eq!(label("spin-", 12), "spin-12");
    assert_eq!(label("show-", 0), "show-0");
}

#[test]
fn parse_json_reads_values_and_refuses_other_text() {
    let v = parse_json("{\"a\": [true, null, 2.5, \"x\"]}").unwrap();
    match member(&v, "a").unwrap() {
        Json::Array(items) => {
            assert!(matches!(items[0], Json::Bool(true)));
            assert!(matches!(items[1], Json::Null));
            assert!(matches!(&items[2], Json::Number(n) if n == "2.5"));
            assert!(matches!(&items[3], Json::Str(s) if s == "x"));
        }
        _ => panic!("not an array"),
    }
    assert!(parse_json("").is_none());
    assert!(parse_json("not json").is_none());
}

#[test]
fn status_and_reasons() {
    assert_eq!(status_of(&Ok(())), 200);
    assert_eq!(status_of(&Err(IngestError::EmptyResponse)), 500);
    assert_eq!(IngestError::EmptyResponse.reason(), "Response was empty.");
    assert_eq!(IngestError::ConfigurationMissing.reason(), "The access token is not configured.");
    assert_eq!(IngestError::UpstreamUnavailable.reason(), "Couldn't reach the upstream source.");
    assert_eq!(IngestError::MalformedPayload.reason(), "Response was malformed.");
    assert_eq!(IngestError::DependentFetchFailed.reason(), "Couldn't fetch a linked resource.");
}
