use rusted_quotes::moderation::Denylist;
use rusted_quotes::pool::{pool_step, PoolAction, PoolEvent, PoolState};
use rusted_quotes::quote::{ApiError, CreateQuote, Quote};
use rusted_quotes::service::QuoteManager;
use rusted_quotes::store::QuoteStore;

fn quote_at(id: &str, text: &str, author: Option<&str>, t: i64) -> Quote {
    Quote {
        id: id.to_string(),
        quote: text.to_string(),
        author: author.map(|a| a.to_string()),
        created_at: t,
        updated_at: t,
    }
}

#[test]
fn create_then_read_back() {
    let mut m = QuoteManager::new("badword");
    let created = m
        .create_quote(CreateQuote {
            quote: "Test quote".to_string(),
            author: Some("Alice".to_string()),
        })
        .expect("create should succeed");

    assert_eq!(created.quote, "Test quote");
    assert_eq!(created.author.as_deref(), Some("Alice"));
    assert_eq!(created.created_at, created.updated_at);
    assert_eq!(created.id.len(), 36);

    let read = m.get_quote_by_id(&created.id).expect("id should resolve");
    assert_eq!(read, created);

    let page = m.fetch_quotes(Some(1), Some(10), None);
    assert_eq!(page.len(), 1);
    assert_eq!(page[0], created);
}

#[test]
fn empty_text_rejected() {
    let mut m = QuoteManager::new("");
    let r = m.create_quote(CreateQuote { quote: String::new(), author: None });
    assert_eq!(r, Err(ApiError::Validation));
    assert_eq!(m.fetch_quotes(None, None, None).len(), 0);
}

#[test]
fn whitespace_only_text_rejected() {
    let mut m = QuoteManager::new("");
    let r = m.create_quote(CreateQuote { quote: " \t\r\n  ".to_string(), author: None });
    assert_eq!(r, Err(ApiError::Validation));
    assert_eq!(m.fetch_quotes(None, None, None).len(), 0);
}

#[test]
fn forbidden_text_rejected_case_insensitively() {
    let mut m = QuoteManager::new("badword, SPAM");
    let r = m.create_quote(CreateQuote {
        quote: "this holds xxBADWORDyy inside".to_string(),
        author: None,
    });
    assert_eq!(r, Err(ApiError::Validation));

    let r = m.create_quote(CreateQuote { quote: "some SpAm here".to_string(), author: None });
    assert_eq!(r, Err(ApiError::Validation));

    let r = m.create_quote(CreateQuote { quote: "a clean sentence".to_string(), author: None });
    assert!(r.is_ok());
    assert_eq!(m.fetch_quotes(None, None, None).len(), 1);
}

#[test]
fn forbidden_author_rejected() {
    let mut m = QuoteManager::new("badword");
    let r = m.create_quote(CreateQuote {
        quote: "a clean sentence".to_string(),
        author: Some("Mr. Badword".to_string()),
    });
    assert_eq!(r, Err(ApiError::Validation));
    assert_eq!(m.fetch_quotes(None, None, None).len(), 0);
}

#[test]
fn denylist_parsing_trims_and_drops_empty_entries() {
    let d = Denylist::from_config(" Foo , ,BAR,,");
    assert!(d.check_text("xx foo xx"));
    assert!(d.check_text("ends with bar"));
    assert!(d.check_text("FOO"));
    assert!(!d.check_text("clean"));

    // only empty fields: nothing is forbidden
    let d = Denylist::from_config(",,,");
    assert!(!d.check_text("anything at all"));

    let d = Denylist::from_config("");
    assert!(!d.check_text("anything at all"));
}

#[test]
fn created_ids_are_unique_and_stable() {
    let mut m = QuoteManager::new("");
    let mut created = Vec::new();
    for i in 0..20 {
        let q = m
            .create_quote(CreateQuote { quote: format!("quote number {}", i), author: None })
            .expect("create should succeed");
        created.push(q);
    }
    for i in 0..created.len() {
        for j in 0..i {
            assert_ne!(created[i].id, created[j].id);
        }
    }
    for q in &created {
        let read = m.get_quote_by_id(&q.id).expect("id should resolve");
        assert_eq!(&read, q);
    }
}

#[test]
fn second_page_holds_eleventh_through_twentieth() {
    let mut s = QuoteStore::new();
    for i in 0..25i64 {
        s.insert(quote_at(&format!("id-{:02}", i), &format!("text {:02}", i), None, i))
            .expect("insert should succeed");
    }
    // newest first: created_at 24 down to 0; the second page of ten holds
    // the records created at 14 down to 5
    let page = s.list(2, 10, None);
    assert_eq!(page.len(), 10);
    for (k, q) in page.iter().enumerate() {
        assert_eq!(q.created_at, 14 - k as i64);
    }
}

#[test]
fn listing_is_ordered_newest_first() {
    let mut s = QuoteStore::new();
    for (id, t) in [("a", 3i64), ("b", 9), ("c", 1), ("d", 7)] {
        s.insert(quote_at(id, &format!("text {}", id), None, t)).expect("insert");
    }
    let all = s.list(1, 100, None);
    let stamps: Vec<i64> = all.iter().map(|q| q.created_at).collect();
    assert_eq!(stamps, vec![9, 7, 3, 1]);
}

#[test]
fn equal_stamps_keep_latest_insert_first() {
    let mut s = QuoteStore::new();
    s.insert(quote_at("first", "text one", None, 5)).expect("insert");
    s.insert(quote_at("second", "text two", None, 5)).expect("insert");
    let all = s.list(1, 100, None);
    assert_eq!(all[0].id, "second");
    assert_eq!(all[1].id, "first");
}

#[test]
fn limit_is_clamped_to_one_hundred() {
    let mut s = QuoteStore::new();
    for i in 0..120i64 {
        s.insert(quote_at(&format!("id-{:03}", i), &format!("text {:03}", i), None, i))
            .expect("insert");
    }
    assert_eq!(s.list(1, 500, None).len(), 100);
    // a limit below one also reads as one
    assert_eq!(s.list(1, 0, None).len(), 1);
}

#[test]
fn fetch_defaults_to_first_page_of_ten() {
    let mut m = QuoteManager::new("");
    for i in 0..12 {
        m.create_quote(CreateQuote { quote: format!("quote number {}", i), author: None })
            .expect("create");
    }
    let page = m.fetch_quotes(None, None, None);
    assert_eq!(page.len(), 10);
}

#[test]
fn search_matches_text_and_author_case_insensitively() {
    let mut s = QuoteStore::new();
    s.insert(quote_at("q1", "wisdom of the ages", Some("Alice Doe"), 1)).expect("insert");
    s.insert(quote_at("q2", "I met Alice once", None, 2)).expect("insert");
    s.insert(quote_at("q3", "nothing to see", Some("Bob"), 3)).expect("insert");

    let hits = s.list(1, 100, Some("alice"));
    let ids: Vec<&str> = hits.iter().map(|q| q.id.as_str()).collect();
    assert_eq!(ids, vec!["q2", "q1"]);

    let none = s.list(1, 100, Some("carol"));
    assert!(none.is_empty());
}

#[test]
fn search_through_service() {
    let mut m = QuoteManager::new("");
    m.create_quote(CreateQuote {
        quote: "patience is bitter".to_string(),
        author: Some("ALICE".to_string()),
    })
    .expect("create");
    m.create_quote(CreateQuote { quote: "fortune favours the bold".to_string(), author: None })
        .expect("create");

    let hits = m.fetch_quotes(None, None, Some("Alice"));
    assert_eq!(hits.len(), 1);
    assert_eq!(hits[0].quote, "patience is bitter");
}

#[test]
fn unknown_id_is_not_found() {
    let mut m = QuoteManager::new("");
    m.create_quote(CreateQuote { quote: "something".to_string(), author: None }).expect("create");
    let r = m.get_quote_by_id("00000000-0000-0000-0000-000000000000");
    assert_eq!(r, Err(ApiError::NotFound));
}

#[test]
fn random_on_empty_store_is_not_found() {
    let m = QuoteManager::new("");
    assert_eq!(m.get_random_quote(), Err(ApiError::NotFound));
}

#[test]
fn random_returns_an_existing_record() {
    let mut m = QuoteManager::new("");
    let mut ids = Vec::new();
    for i in 0..5 {
        let q = m
            .create_quote(CreateQuote { quote: format!("quote number {}", i), author: None })
            .expect("create");
        ids.push(q.id);
    }
    for _ in 0..20 {
        let q = m.get_random_quote().expect("store is not empty");
        assert!(ids.contains(&q.id));
    }
}

#[test]
fn duplicate_id_is_a_storage_fault() {
    let mut s = QuoteStore::new();
    s.insert(quote_at("same-id", "first text", None, 1)).expect("insert");
    let r = s.insert(quote_at("same-id", "second text", None, 2));
    assert_eq!(r, Err(ApiError::Storage));
    assert_eq!(s.len(), 1);
    let kept = s.get_by_id("same-id").expect("record stays");
    assert_eq!(kept.quote, "first text");
}

#[test]
fn error_status_codes() {
    assert_eq!(ApiError::Validation.status_code(), 400);
    assert_eq!(ApiError::NotFound.status_code(), 404);
    assert_eq!(ApiError::Storage.status_code(), 500);
}

#[test]
fn pool_lifecycle_steps() {
    assert_eq!(
        pool_step(PoolState::Unconnected, PoolEvent::ConnectSucceeded),
        (PoolState::Connected, PoolAction::Serve)
    );
    assert_eq!(
        pool_step(PoolState::Unconnected, PoolEvent::ConnectFailed),
        (PoolState::Unconnected, PoolAction::AbortProcess)
    );
    assert_eq!(
        pool_step(PoolState::Connected, PoolEvent::ShutdownRequested),
        (PoolState::ShuttingDown, PoolAction::DrainAndClose)
    );
    assert_eq!(
        pool_step(PoolState::ShuttingDown, PoolEvent::ConnectSucceeded),
        (PoolState::ShuttingDown, PoolAction::Wait)
    );
    assert_eq!(
        pool_step(PoolState::Connected, PoolEvent::ConnectFailed),
        (PoolState::Connected, PoolAction::Wait)
    );
}
