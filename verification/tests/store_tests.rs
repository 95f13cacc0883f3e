use stellar_api::api_doc::{ApiDoc, ParamLocation, ParamType};
use stellar_api::model::{
    ApiError, ApiResponse, BountyApplication, BountyRecord, BountyRequest, FreelancerRegistration,
};
use stellar_api::replies::{
    application_submitted_reply, bounty_created_reply, freelancer_registered_reply,
};
use stellar_api::store::{Store, TransactionContext};
use stellar_api::str_map::StrMap;

fn logo_request() -> BountyRequest {
    BountyRequest {
        creator: "GCREATOR".to_string(),
        title: "Design a logo".to_string(),
        description: "Need a logo".to_string(),
        budget: 100,
        deadline: 12345,
    }
}

fn seeded_logo_bounty() -> BountyRecord {
    BountyRecord {
        id: 1,
        creator: "GCREATOR".to_string(),
        title: "Design a logo".to_string(),
        description: "Need a logo".to_string(),
        budget: 100,
        deadline: 12345,
        status: "open".to_string(),
        application_count: 0,
    }
}

fn application_for(bounty_id: u64) -> BountyApplication {
    BountyApplication {
        bounty_id,
        freelancer: "GFREELANCER".to_string(),
        proposal: "I can do it".to_string(),
        proposed_budget: 90,
        timeline: 7,
    }
}

fn registration(name: &str, discipline: &str, bio: &str) -> FreelancerRegistration {
    FreelancerRegistration {
        name: name.to_string(),
        discipline: discipline.to_string(),
        bio: bio.to_string(),
    }
}

#[test]
fn test_api_response_ok() {
    let response: ApiResponse<String> = ApiResponse::ok("test".to_string(), None);
    assert!(response.success);
    assert_eq!(response.data, Some("test".to_string()));
}

#[test]
fn test_api_response_err() {
    let response: ApiResponse<String> = ApiResponse::err("error".to_string());
    assert!(!response.success);
    assert_eq!(response.error, Some("error".to_string()));
}

#[test]
fn test_openapi_spec_is_valid() {
    let spec = ApiDoc::openapi();
    let paths = &spec.paths.paths;
    assert!(paths.contains_key("/health"));
    assert!(paths.contains_key("/api/bounties"));
    assert!(paths.contains_key("/api/freelancers"));
    assert!(paths.contains_key("/api/escrow/{id}"));
}

#[test]
fn create_bounty_commits_all_related_writes() {
    let mut store = Store::default();

    let created = store
        .create_bounty(BountyRequest {
            creator: "GCREATOR".to_string(),
            title: "Design a logo".to_string(),
            description: "Need a logo".to_string(),
            budget: 100,
            deadline: 12345,
        })
        .expect("bounty should be created");

    let db = &store.db;
    assert_eq!(
        db.bounties.get(&created.id).map(|b| b.title.as_str()),
        Some("Design a logo")
    );
    assert!(db
        .creator_bounties
        .get("GCREATOR")
        .is_some_and(|bounties| bounties.contains(&created.id)));
}

#[test]
fn create_bounty_rolls_back_when_transaction_fails_midway() {
    let mut store = Store::default();
    store.set_fail_after_write(Some(1));

    let result = store.create_bounty(BountyRequest {
        creator: "GCREATOR".to_string(),
        title: "Broken create".to_string(),
        description: "Should rollback".to_string(),
        budget: 100,
        deadline: 12345,
    });

    assert!(matches!(result, Err(ApiError::Internal(_))));
    let db = &store.db;
    assert!(db.bounties.is_empty());
    assert!(db.creator_bounties.is_empty());
}

#[test]
fn apply_for_bounty_rolls_back_all_writes_on_failure() {
    let mut store = Store::default();
    store.seed_bounty(BountyRecord {
        id: 1,
        creator: "GCREATOR".to_string(),
        title: "Design a logo".to_string(),
        description: "Need a logo".to_string(),
        budget: 100,
        deadline: 12345,
        status: "open".to_string(),
        application_count: 0,
    });
    store.set_fail_after_write(Some(2));

    let result = store.apply_for_bounty(BountyApplication {
        bounty_id: 1,
        freelancer: "GFREELANCER".to_string(),
        proposal: "I can do it".to_string(),
        proposed_budget: 90,
        timeline: 7,
    });

    assert!(matches!(result, Err(ApiError::Internal(_))));
    let db = &store.db;
    assert!(db.applications.is_empty());
    assert!(db.bounty_applications.is_empty());
    assert_eq!(db.bounties.get(&1).map(|b| b.application_count), Some(0));
}

#[test]
fn duplicate_freelancer_registration_does_not_partially_persist() {
    let mut store = Store::default();

    store
        .register_freelancer(FreelancerRegistration {
            name: "Alice Doe".to_string(),
            discipline: "Design".to_string(),
            bio: "Bio".to_string(),
        })
        .expect("initial registration should succeed");

    let duplicate = store.register_freelancer(FreelancerRegistration {
        name: "Alice Doe".to_string(),
        discipline: "Design".to_string(),
        bio: "Updated bio".to_string(),
    });

    assert!(matches!(duplicate, Err(ApiError::Conflict(_))));
    let db = &store.db;
    assert_eq!(db.freelancers.len(), 1);
    assert_eq!(db.discipline_index.get("Design").map(StrMap::len), Some(1));
}

#[test]
fn apply_handler_rejects_path_body_mismatch_without_writes() {
    let mut store = Store::default();
    store.seed_bounty(BountyRecord {
        id: 1,
        creator: "GCREATOR".to_string(),
        title: "Design a logo".to_string(),
        description: "Need a logo".to_string(),
        budget: 100,
        deadline: 12345,
        status: "open".to_string(),
        application_count: 0,
    });

    let result = store.apply_at_path(
        1,
        BountyApplication {
            bounty_id: 2,
            freelancer: "GFREELANCER".to_string(),
            proposal: "I can do it".to_string(),
            proposed_budget: 90,
            timeline: 7,
        },
    );

    let error = result.expect_err("mismatched ids must be refused");
    assert_eq!(error.status_code(), 400);
    let payload: ApiResponse<String> = error.response();
    assert!(!payload.success);
    assert_eq!(payload.error.as_deref(), Some("Bounty ID in path must match request body"));

    let db = &store.db;
    assert!(db.applications.is_empty());
    assert!(db.bounty_applications.is_empty());
    assert_eq!(db.bounties.get(&1).map(|b| b.application_count), Some(0));
}

#[test]
fn created_bounty_has_next_id_open_status_and_is_readable() {
    let mut store = Store::default();
    let first = store.create_bounty(logo_request()).unwrap();
    let second = store.create_bounty(logo_request()).unwrap();
    assert_eq!(first.id, 1);
    assert_eq!(second.id, 2);
    assert_eq!(first.status, "open");
    assert_eq!(first.application_count, 0);
    assert_eq!(first.creator, "GCREATOR");
    assert_eq!(first.budget, 100);
    assert_eq!(first.deadline, 12345);
    let read = store.get_bounty(2).expect("created bounty is readable");
    assert_eq!(read.id, 2);
    assert_eq!(read.title, "Design a logo");
    assert!(store.get_bounty(3).is_none());
    assert_eq!(store.db.creator_bounties.get("GCREATOR").map(|s| s.len()), Some(2));
    assert_eq!(store.db.next_bounty_id, 2);
}

#[test]
fn create_bounty_fails_at_second_write_and_keeps_counter() {
    let mut store = Store::default();
    store.set_fail_after_write(Some(2));
    let result = store.create_bounty(logo_request());
    match result {
        Err(ApiError::Internal(message)) => assert_eq!(message, "transaction aborted before commit"),
        other => panic!("unexpected result: {:?}", other),
    }
    assert_eq!(store.db.next_bounty_id, 0);
    assert!(store.db.bounties.is_empty());
    store.set_fail_after_write(Some(3));
    let created = store.create_bounty(logo_request()).unwrap();
    assert_eq!(created.id, 1);
}

#[test]
fn apply_for_missing_bounty_is_not_found() {
    let mut store = Store::default();
    let result = store.apply_for_bounty(application_for(9));
    match result {
        Err(ApiError::NotFound(message)) => assert_eq!(message, "Bounty not found"),
        other => panic!("unexpected result: {:?}", other),
    }
    assert!(store.db.applications.is_empty());
    assert_eq!(store.db.next_application_id, 0);
}

#[test]
fn apply_for_bounty_counts_and_indexes_the_application() {
    let mut store = Store::default();
    store.seed_bounty(seeded_logo_bounty());
    let first = store.apply_for_bounty(application_for(1)).unwrap();
    let second = store.apply_at_path(1, application_for(1)).unwrap();
    assert_eq!(first.id, 1);
    assert_eq!(second.id, 2);
    assert_eq!(first.status, "pending");
    assert_eq!(first.bounty_id, 1);
    assert_eq!(first.proposed_budget, 90);
    assert_eq!(store.db.bounties.get(&1).map(|b| b.application_count), Some(2));
    assert_eq!(store.db.bounty_applications.get(&1).map(|s| s.len()), Some(2));
    assert_eq!(store.db.applications.len(), 2);
}

#[test]
fn apply_for_bounty_fails_at_third_write() {
    let mut store = Store::default();
    store.seed_bounty(seeded_logo_bounty());
    store.set_fail_after_write(Some(3));
    let result = store.apply_for_bounty(application_for(1));
    assert!(matches!(result, Err(ApiError::Internal(_))));
    assert_eq!(store.db.bounties.get(&1).map(|b| b.application_count), Some(0));
    assert!(store.db.applications.is_empty());
}

#[test]
fn seed_bounty_raises_counter() {
    let mut store = Store::default();
    let mut bounty = seeded_logo_bounty();
    bounty.id = 7;
    store.seed_bounty(bounty);
    assert_eq!(store.db.next_bounty_id, 7);
    let created = store.create_bounty(logo_request()).unwrap();
    assert_eq!(created.id, 8);
    assert_eq!(store.db.creator_bounties.get("GCREATOR").map(|s| s.len()), Some(2));
}

#[test]
fn list_bounties_in_id_order() {
    let mut store = Store::default();
    let mut late = seeded_logo_bounty();
    late.id = 5;
    late.title = "Late".to_string();
    store.seed_bounty(late);
    let mut early = seeded_logo_bounty();
    early.id = 2;
    early.title = "Early".to_string();
    store.seed_bounty(early);
    let listed = store.list_bounties();
    let ids: Vec<u64> = listed.iter().map(|b| b.id).collect();
    assert_eq!(ids, vec![2, 5]);
    assert_eq!(listed[0].title, "Early");
    assert!(Store::default().list_bounties().is_empty());
}

#[test]
fn registered_address_is_trimmed_lowercased_and_hyphenated() {
    let mut store = Store::default();
    let profile = store
        .register_freelancer(registration("  Alice Doe\t", "Design", "Bio"))
        .unwrap();
    assert_eq!(profile.address, "alice-doe");
    assert_eq!(profile.name, "  Alice Doe\t");
    assert!(!profile.verified);
    assert!(store.get_freelancer("alice-doe").is_some());
    assert!(store.get_freelancer("Alice Doe").is_none());
    let again = store.register_freelancer(registration("ALICE DOE", "Writing", "Other"));
    match again {
        Err(ApiError::Conflict(message)) => assert_eq!(message, "Address already registered"),
        other => panic!("unexpected result: {:?}", other),
    }
}

#[test]
fn register_freelancer_rolls_back_on_failure() {
    let mut store = Store::default();
    store.set_fail_after_write(Some(2));
    let result = store.register_freelancer(registration("Bob", "Design", "Bio"));
    assert!(matches!(result, Err(ApiError::Internal(_))));
    assert!(store.db.freelancers.is_empty());
    assert!(store.db.discipline_index.is_empty());
}

#[test]
fn list_freelancers_filters_by_discipline_in_address_order() {
    let mut store = Store::default();
    store.register_freelancer(registration("Carol", "Design", "c")).unwrap();
    store.register_freelancer(registration("Alice", "Design", "a")).unwrap();
    store.register_freelancer(registration("Bob", "Writing", "b")).unwrap();

    let design: Vec<String> = store
        .list_freelancers(Some("Design"))
        .iter()
        .map(|f| f.address.clone())
        .collect();
    assert_eq!(design, vec!["alice".to_string(), "carol".to_string()]);

    let all: Vec<String> = store
        .list_freelancers(None)
        .iter()
        .map(|f| f.address.clone())
        .collect();
    assert_eq!(all, vec!["alice".to_string(), "bob".to_string(), "carol".to_string()]);

    assert_eq!(store.list_freelancers(Some("")).len(), 3);
    assert!(store.list_freelancers(Some("Music")).is_empty());
}

#[test]
fn lookups_answer_not_found() {
    let store = Store::default();
    match store.bounty_or_not_found(4) {
        Err(error) => {
            assert_eq!(error.status_code(), 404);
            assert_eq!(error.message(), "Bounty not found");
        }
        Ok(_) => panic!("no bounty was stored"),
    }
    match store.freelancer_or_not_found("nobody") {
        Err(error) => assert_eq!(error.to_string(), "Freelancer not found"),
        Ok(_) => panic!("no freelancer was stored"),
    }
}

#[test]
fn error_status_codes() {
    assert_eq!(ApiError::BadRequest("x".to_string()).status_code(), 400);
    assert_eq!(ApiError::Conflict("x".to_string()).status_code(), 409);
    assert_eq!(ApiError::NotFound("x".to_string()).status_code(), 404);
    assert_eq!(ApiError::Internal("boom".to_string()).status_code(), 500);
    assert_eq!(ApiError::Internal("boom".to_string()).message(), "boom");
}

#[test]
fn openapi_documents_every_route() {
    let spec = ApiDoc::openapi();
    assert_eq!(spec.paths.paths.len(), 9);
    assert_eq!(spec.info.title, "Stellar Creator Platform API");
    let bounties = spec.paths.paths.get("/api/bounties").unwrap();
    assert_eq!(bounties.operations.len(), 2);
    let release = spec.paths.paths.get("/api/escrow/{id}/release").unwrap();
    let codes: Vec<u16> = release.operations[0].responses.iter().map(|r| r.status).collect();
    assert_eq!(codes, vec![200, 403, 404]);
    assert!(!spec.paths.paths.contains_key("/api/unknown"));
}

#[test]
fn str_map_keeps_keys_sorted_and_replaces_values() {
    let mut map: StrMap<u8> = StrMap::new();
    map.insert("pear".to_string(), 1);
    map.insert("apple".to_string(), 2);
    map.insert("fig".to_string(), 3);
    map.insert("apple".to_string(), 4);
    assert_eq!(map.len(), 3);
    let keys: Vec<String> = (0..map.len()).map(|i| map.key_at(i).clone()).collect();
    assert_eq!(keys, vec!["apple".to_string(), "fig".to_string(), "pear".to_string()]);
    assert_eq!(map.get("apple"), Some(&4));
    assert_eq!(map.remove("fig"), Some(3));
    assert_eq!(map.remove("fig"), None);
    assert_eq!(map.len(), 2);
}

#[test]
fn listings_repeat_identically() {
    let mut store = Store::default();
    store.register_freelancer(registration("Zoe", "Design", "z")).unwrap();
    store.register_freelancer(registration("Adam", "Design", "a")).unwrap();
    store.create_bounty(logo_request()).unwrap();
    store.create_bounty(logo_request()).unwrap();
    let first: Vec<String> = store.list_freelancers(Some("Design")).iter().map(|f| f.address.clone()).collect();
    let second: Vec<String> = store.list_freelancers(Some("Design")).iter().map(|f| f.address.clone()).collect();
    assert_eq!(first, second);
    assert_eq!(first, vec!["adam".to_string(), "zoe".to_string()]);
    let ids: Vec<u64> = store.list_bounties().iter().map(|b| b.id).collect();
    assert_eq!(ids, vec![1, 2]);
}

#[test]
fn record_write_fails_only_at_the_configured_write() {
    for fail in [None, Some(0), Some(1), Some(2), Some(3), Some(9)] {
        let mut ctx = TransactionContext { writes: 0, fail_after_write: fail };
        let mut failures = Vec::new();
        for k in 1..=5usize {
            if ctx.record_write().is_err() {
                failures.push(k);
            }
        }
        assert_eq!(ctx.writes, 5);
        let expected: Vec<usize> = match fail {
            Some(k) if (1..=5).contains(&k) => vec![k],
            _ => vec![],
        };
        assert_eq!(failures, expected);
    }
}

#[test]
fn bounty_pages_filter_by_status_and_split() {
    let mut store = Store::default();
    for id in 1..=25u64 {
        let mut b = seeded_logo_bounty();
        b.id = id;
        if id % 5 == 0 {
            b.status = "completed".to_string();
        }
        store.seed_bounty(b);
    }
    let first = store.list_bounties_page(None, None, None);
    assert_eq!(first.total, 25);
    assert_eq!(first.page, 1);
    assert_eq!(first.limit, Some(10));
    let ids: Vec<u64> = first.items.iter().map(|b| b.id).collect();
    assert_eq!(ids, (1..=10).collect::<Vec<u64>>());

    let third = store.list_bounties_page(Some(3), None, None);
    let ids: Vec<u64> = third.items.iter().map(|b| b.id).collect();
    assert_eq!(ids, (21..=25).collect::<Vec<u64>>());
    assert!(store.list_bounties_page(Some(4), None, None).items.is_empty());
    assert_eq!(store.list_bounties_page(Some(0), Some(3), None).items.len(), 3);
    assert_eq!(store.list_bounties_page(Some(0), Some(3), None).page, 1);
    assert!(store.list_bounties_page(None, Some(0), None).items.is_empty());

    let done = store.list_bounties_page(None, Some(2), Some("completed"));
    assert_eq!(done.total, 5);
    let ids: Vec<u64> = done.items.iter().map(|b| b.id).collect();
    assert_eq!(ids, vec![5, 10]);
    assert_eq!(store.list_bounties_page(None, None, Some("")).total, 25);
    assert_eq!(store.list_bounties_page(None, None, Some("in-progress")).total, 0);
}

#[test]
fn freelancer_pages_split_the_listing() {
    let mut store = Store::default();
    for name in ["Eve", "Dan", "Cat", "Bea", "Al"] {
        store.register_freelancer(registration(name, "Design", "bio")).unwrap();
    }
    store.register_freelancer(registration("Zed", "Writing", "bio")).unwrap();
    let page = store.list_freelancers_page(Some("Design"), Some(2), Some(2));
    assert_eq!(page.total, 5);
    let names: Vec<String> = page.items.iter().map(|f| f.address.clone()).collect();
    assert_eq!(names, vec!["cat".to_string(), "dan".to_string()]);
    let all = store.list_freelancers_page(None, None, None);
    assert_eq!(all.total, 6);
    assert_eq!(all.items.len(), 6);
    assert_eq!(all.limit, None);
    let second = store.list_freelancers_page(None, Some(2), None);
    assert_eq!(second.items.len(), 6);
}

#[test]
fn openapi_documents_parameters_and_bodies() {
    let spec = ApiDoc::openapi();
    let apply = spec.paths.paths.get("/api/bounties/{id}/apply").unwrap();
    let op = &apply.operations[0];
    assert_eq!(op.operation_id, "apply_for_bounty");
    assert_eq!(op.summary, "Apply for a bounty");
    assert_eq!(op.request_body.as_deref(), Some("BountyApplication"));
    assert_eq!(op.parameters.len(), 1);
    assert_eq!(op.parameters[0].name, "id");
    assert_eq!(op.parameters[0].location, ParamLocation::Path);
    assert!(op.parameters[0].required);
    assert_eq!(op.parameters[0].param_type, ParamType::U64);
    assert_eq!(op.responses[2].description, "Bounty not found");
    let listing = spec.paths.paths.get("/api/bounties").unwrap();
    let get = &listing.operations[1];
    let names: Vec<&str> = get.parameters.iter().map(|p| p.name.as_str()).collect();
    assert_eq!(names, vec!["page", "limit", "status"]);
    assert!(get.parameters.iter().all(|p| !p.required && p.location == ParamLocation::Query));
    assert!(get.request_body.is_none());
}

#[test]
fn freelancer_listing_is_not_cut_without_a_limit() {
    let mut store = Store::default();
    for i in 0..12u32 {
        let name = format!("Member {}", i);
        store.register_freelancer(registration(&name, "Design", "bio")).unwrap();
    }
    let page = store.list_freelancers_page(Some("Design"), None, None);
    assert_eq!(page.items.len(), 12);
    assert_eq!(page.total, 12);
    let limited = store.list_freelancers_page(Some("Design"), None, Some(5));
    assert_eq!(limited.items.len(), 5);
    assert_eq!(limited.limit, Some(5));
}

#[test]
fn success_replies_carry_status_message_and_data() {
    let mut store = Store::default();
    let bounty = store.create_bounty(logo_request()).unwrap();
    let reply = bounty_created_reply(bounty);
    assert_eq!(reply.status, 201);
    assert!(reply.body.success);
    assert_eq!(reply.body.message.as_deref(), Some("Bounty created successfully"));
    let data = reply.body.data.unwrap();
    assert_eq!(data.bounty_id, 1);
    assert_eq!(data.title, "Design a logo");
    assert_eq!(data.status, "open");

    let application = store.apply_for_bounty(application_for(1)).unwrap();
    let reply = application_submitted_reply(application);
    assert_eq!(reply.status, 201);
    assert_eq!(reply.body.message.as_deref(), Some("Application submitted successfully"));
    let data = reply.body.data.unwrap();
    assert_eq!(data.application_id, 1);
    assert_eq!(data.bounty_id, 1);
    assert_eq!(data.status, "pending");

    let profile = store.register_freelancer(registration("Ann", "Design", "bio")).unwrap();
    let reply = freelancer_registered_reply(profile);
    assert_eq!(reply.status, 201);
    assert_eq!(reply.body.message.as_deref(), Some("Freelancer registered successfully"));
    let data = reply.body.data.unwrap();
    assert_eq!(data.name, "Ann");
    assert!(!data.verified);
}
