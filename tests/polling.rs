use a2s_metrics::{
    encode_record, handle_a2s_response, record_outcome, A2SInfoResult, AggregationCache,
    MetricRecord, PollScheduler, QueryError, SourceQuery,
};

fn result(name: &str, players: u8, max: u8, bots: u8, ping: u128) -> A2SInfoResult {
    let mut b = vec![0xFF, 0xFF, 0xFF, 0xFF, 0x49];
    for part in [name, "de_dust2", "cstrike", "Counter-Strike"] {
        b.extend_from_slice(part.as_bytes());
        b.push(0);
    }
    b.extend_from_slice(&[240, 0, players, max, bots]);
    handle_a2s_response(&b, ping).unwrap()
}

#[test]
fn cache_keeps_latest_result() {
    let mut c = AggregationCache::new();
    let key = "1.2.3.4:27015".to_string();
    assert!(c.get(&key).is_none());
    c.insert(key.clone(), result("first", 1, 2, 0, 3));
    c.insert("5.6.7.8:27015".to_string(), result("other", 1, 2, 0, 3));
    c.insert(key.clone(), result("second", 1, 2, 0, 3));
    assert_eq!(c.get(&key).unwrap().server_name, "second");
    assert_eq!(c.get(&"5.6.7.8:27015".to_string()).unwrap().server_name, "other");
}

#[test]
fn failure_after_success_reports_offline() {
    let t = SourceQuery::new("1.2.3.4".to_string(), 27015, "eu".to_string());
    let mut c = AggregationCache::new();
    let r = record_outcome(&mut c, &t, Ok(result("My, Cool=Server", 10, 32, 2, 25)));
    assert!(matches!(r, MetricRecord::Online(_)));
    let r = record_outcome(&mut c, &t, Err(QueryError::Timeout));
    match &r {
        MetricRecord::Offline(x) => assert_eq!(x.server_name, "My, Cool=Server"),
        _ => panic!("expected an offline record"),
    }
    let mut out = Vec::new();
    encode_record(&mut out, &t, &r);
    let line: String = out.iter().collect();
    assert_eq!(
        line,
        "a2sinfo,host=1.2.3.4:27015,community=eu,game_folder=cstrike,game_name=Counter-Strike,server_name=My\\,\\ Cool\\=Server,map=de_dust2 online=false,ping=5000,num_players=0,num_bots=0,max_players=0\n"
    );
}

#[test]
fn failure_without_cache_writes_nothing() {
    let t = SourceQuery::new("1.2.3.4".to_string(), 27015, "eu".to_string());
    let mut c = AggregationCache::new();
    let r = record_outcome(&mut c, &t, Err(QueryError::Io("refused".to_string())));
    assert!(matches!(r, MetricRecord::Unknown));
    let mut out = Vec::new();
    encode_record(&mut out, &t, &r);
    assert!(out.is_empty());
    assert!(c.get(&t.full_host).is_none());
}

#[test]
fn tick_with_one_timeout_and_one_answer() {
    let down = SourceQuery::new("10.0.0.1".to_string(), 27015, "unknown".to_string());
    let up = SourceQuery::new("10.0.0.2".to_string(), 27016, "my community".to_string());
    let mut s = PollScheduler::new(vec![down, up]);
    let batch = s.tick(vec![Err(QueryError::Timeout), Ok(result("Srv", 10, 32, 2, 12))]);
    assert_eq!(
        batch,
        "a2sinfo,host=10.0.0.2:27016,community=my\\ community,game_folder=cstrike,game_name=Counter-Strike,server_name=Srv,map=de_dust2 online=true,ping=12,num_players=8,num_bots=2,max_players=32\n"
    );
    assert_eq!(batch.lines().count(), 1);

    let batch = s.tick(vec![Err(QueryError::Timeout), Err(QueryError::SpoofedSource)]);
    assert_eq!(
        batch,
        "a2sinfo,host=10.0.0.2:27016,community=my\\ community,game_folder=cstrike,game_name=Counter-Strike,server_name=Srv,map=de_dust2 online=false,ping=5000,num_players=0,num_bots=0,max_players=0\n"
    );
}

#[test]
fn tick_with_no_targets_is_empty() {
    let mut s = PollScheduler::new(Vec::new());
    assert_eq!(s.tick(Vec::new()), "");
}

#[test]
fn tick_uses_newest_result_for_offline_line() {
    let t = SourceQuery::new("h".to_string(), 1, "c".to_string());
    let mut s = PollScheduler::new(vec![t]);
    s.tick(vec![Ok(result("old", 1, 2, 0, 1))]);
    s.tick(vec![Ok(result("new", 1, 2, 0, 1))]);
    let batch = s.tick(vec![Err(QueryError::MalformedHeader)]);
    assert!(batch.contains("server_name=new,"));
    assert!(batch.contains("online=false"));
}
