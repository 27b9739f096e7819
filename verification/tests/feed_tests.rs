use intel_registry::feed::{dec_string, FeedError, HumintFeed, Package};

const NS_PER_DAY: u64 = 86_400_000_000_000;

fn hash64() -> String {
    "f".repeat(64)
}

fn basic_package() -> Package {
    Package {
        id: "basic".to_string(),
        name: "Basic".to_string(),
        price_usdc_cents: 500,
        duration_days: 30,
        description: "Monthly access".to_string(),
    }
}

fn new_feed() -> HumintFeed {
    HumintFeed::new("owner.near".to_string(), 250).unwrap()
}

fn feed_with_source() -> HumintFeed {
    let mut feed = new_feed();
    feed.register_source(10, hash64(), "pk".to_string(), vec![basic_package()]).unwrap();
    feed
}

#[test]
fn decimal_rendering_is_exact() {
    assert_eq!(dec_string(0), "0");
    assert_eq!(dec_string(7), "7");
    assert_eq!(dec_string(10), "10");
    assert_eq!(dec_string(1234567890), "1234567890");
    assert_eq!(dec_string(u64::MAX), "18446744073709551615");
}

#[test]
fn feed_creation_checks_the_fee() {
    assert!(HumintFeed::new("o".to_string(), 1000).is_ok());
    assert!(matches!(HumintFeed::new("o".to_string(), 1001), Err(FeedError::FeeTooHigh)));
}

#[test]
fn source_registration_validates_inputs() {
    let mut feed = new_feed();

    let r = feed.register_source(10, "xyz".to_string(), "pk".to_string(), vec![]);
    assert_eq!(r.unwrap_err(), FeedError::InvalidHash);

    let mut bad = basic_package();
    bad.duration_days = 0;
    let r = feed.register_source(10, hash64(), "pk".to_string(), vec![bad]);
    assert_eq!(r.unwrap_err(), FeedError::InvalidPackage);

    feed.register_source(10, hash64(), "pk".to_string(), vec![basic_package()]).unwrap();
    let r = feed.register_source(11, hash64(), "pk2".to_string(), vec![]);
    assert_eq!(r.unwrap_err(), FeedError::SourceExists);

    let source = feed.get_source(hash64()).unwrap();
    assert_eq!(source.public_key, "pk");
    assert_eq!(source.post_count, 0);
    assert!(source.is_active);
    assert_eq!(source.packages.len(), 1);
    assert_eq!(source.packages[0].id, "basic");
}

#[test]
fn posts_are_anchored_and_counted() {
    let mut feed = feed_with_source();

    let r = feed.anchor_post(
        20,
        "post-1".to_string(),
        "0".repeat(64),
        "a".repeat(64),
        "QmCid".to_string(),
        true,
        "2026-02".to_string(),
        vec![],
    );
    assert_eq!(r.unwrap_err(), FeedError::SourceNotFound);

    feed.anchor_post(
        20,
        "post-1".to_string(),
        hash64(),
        "a".repeat(64),
        "QmCid".to_string(),
        true,
        "2026-02".to_string(),
        vec!["LocationProximity".to_string()],
    )
    .unwrap();

    let r = feed.anchor_post(
        21,
        "post-1".to_string(),
        hash64(),
        "b".repeat(64),
        "QmCid2".to_string(),
        false,
        "2026-02".to_string(),
        vec![],
    );
    assert_eq!(r.unwrap_err(), FeedError::PostExists);

    let r = feed.anchor_post(
        21,
        "post-2".to_string(),
        hash64(),
        "not-hex".to_string(),
        "QmCid2".to_string(),
        false,
        "2026-02".to_string(),
        vec![],
    );
    assert_eq!(r.unwrap_err(), FeedError::InvalidHash);

    let post = feed.get_post("post-1".to_string()).unwrap();
    assert_eq!(post.content_cid, "QmCid");
    assert!(post.is_premium);
    assert_eq!(post.created_at, 20);
    assert_eq!(feed.get_source(hash64()).unwrap().post_count, 1);

    let posts = feed.get_source_posts(hash64(), None, None);
    assert_eq!(posts.len(), 1);
    assert_eq!(posts[0].post_id, "post-1");
}

#[test]
fn access_passes_grant_until_expiry() {
    let mut feed = feed_with_source();
    let now = 1_000;

    let r = feed.mint_access_pass(
        "stranger".to_string(),
        now,
        "alice.near".to_string(),
        hash64(),
        "basic".to_string(),
        500,
    );
    assert_eq!(r.unwrap_err(), FeedError::OnlyOwner);

    let r = feed.mint_access_pass(
        "owner.near".to_string(),
        now,
        "alice.near".to_string(),
        hash64(),
        "missing".to_string(),
        500,
    );
    assert_eq!(r.unwrap_err(), FeedError::PackageNotFound);

    let token_id = feed
        .mint_access_pass(
            "owner.near".to_string(),
            now,
            "alice.near".to_string(),
            hash64(),
            "basic".to_string(),
            500,
        )
        .unwrap();
    assert_eq!(token_id, "ap-1");
    assert_eq!(feed.nft_total_supply(), 1);
    assert_eq!(feed.get_source(hash64()).unwrap().subscriber_count, 1);

    let pass = feed.get_access_pass("ap-1".to_string()).unwrap();
    assert_eq!(pass.source_hash, hash64());
    assert_eq!(pass.started_at, now);
    assert_eq!(pass.expires_at, now + 30 * NS_PER_DAY);

    assert!(feed.has_access("alice.near".to_string(), hash64(), now));
    assert!(feed.has_access("alice.near".to_string(), hash64(), now + 29 * NS_PER_DAY));
    assert!(!feed.has_access("alice.near".to_string(), hash64(), now + 31 * NS_PER_DAY));
    assert!(!feed.has_access("bob.near".to_string(), hash64(), now));

    let passes = feed.get_access_passes("alice.near".to_string());
    assert_eq!(passes.len(), 1);
    assert_eq!(passes[0].0, "ap-1");

    let (token_owner, metadata) = feed.nft_token("ap-1".to_string()).unwrap();
    assert_eq!(token_owner, "alice.near");
    assert_eq!(metadata.copies, Some(1));
    assert_eq!(metadata.issued_at, Some("1000".to_string()));
    assert_eq!(metadata.title, Some("ffffffff - Basic".to_string()));
    assert_eq!(metadata.description, Some("Access pass for Basic content".to_string()));
    assert!(feed.nft_token("ap-2".to_string()).is_none());
}

#[test]
fn post_access_combines_subscription_and_exclusions() {
    let mut feed = feed_with_source();
    let now = 1_000;
    feed.anchor_post(
        now,
        "free".to_string(),
        hash64(),
        "a".repeat(64),
        "cid1".to_string(),
        false,
        "e".to_string(),
        vec![],
    )
    .unwrap();
    feed.anchor_post(
        now,
        "premium".to_string(),
        hash64(),
        "b".repeat(64),
        "cid2".to_string(),
        true,
        "e".to_string(),
        vec![],
    )
    .unwrap();

    assert!(feed.has_post_access("anyone".to_string(), "free".to_string(), now));
    assert!(!feed.has_post_access("anyone".to_string(), "missing".to_string(), now));
    assert!(!feed.has_post_access("alice.near".to_string(), "premium".to_string(), now));

    feed.mint_access_pass(
        "owner.near".to_string(),
        now,
        "alice.near".to_string(),
        hash64(),
        "basic".to_string(),
        500,
    )
    .unwrap();
    assert!(feed.has_post_access("alice.near".to_string(), "premium".to_string(), now));

    let r = feed.add_exclusion("mallory".to_string(), "premium".to_string(), "alice.near".to_string());
    assert_eq!(r.unwrap_err(), FeedError::OnlyOwner);
    let r = feed.add_exclusion("owner.near".to_string(), "missing".to_string(), "alice.near".to_string());
    assert_eq!(r.unwrap_err(), FeedError::PostNotFound);

    feed.add_exclusion("owner.near".to_string(), "premium".to_string(), "alice.near".to_string())
        .unwrap();
    assert!(feed.is_excluded("premium".to_string(), "alice.near".to_string()));
    assert!(!feed.has_post_access("alice.near".to_string(), "premium".to_string(), now));

    feed.remove_exclusion("owner.near".to_string(), "premium".to_string(), "alice.near".to_string())
        .unwrap();
    assert!(!feed.is_excluded("premium".to_string(), "alice.near".to_string()));
    assert!(feed.has_post_access("alice.near".to_string(), "premium".to_string(), now));
}

#[test]
fn tokens_transfer_between_owners() {
    let mut feed = feed_with_source();
    feed.mint_access_pass(
        "owner.near".to_string(),
        1,
        "alice.near".to_string(),
        hash64(),
        "basic".to_string(),
        500,
    )
    .unwrap();

    let r = feed.nft_transfer("bob.near".to_string(), "bob.near".to_string(), "ap-1".to_string());
    assert_eq!(r.unwrap_err(), FeedError::NotTokenOwner);
    let r = feed.nft_transfer("alice.near".to_string(), "bob.near".to_string(), "ap-9".to_string());
    assert_eq!(r.unwrap_err(), FeedError::TokenNotFound);

    feed.nft_transfer("alice.near".to_string(), "bob.near".to_string(), "ap-1".to_string())
        .unwrap();
    assert!(!feed.has_access("alice.near".to_string(), hash64(), 1));
    assert!(feed.has_access("bob.near".to_string(), hash64(), 1));
}

#[test]
fn source_listing_paginates_active_sources() {
    let mut feed = new_feed();
    for i in 0..4 {
        let hash = format!("{:064}", i);
        feed.register_source(10, hash, format!("pk-{}", i), vec![]).unwrap();
    }
    let all = feed.list_sources(None, None);
    assert_eq!(all.len(), 4);
    assert_eq!(all[0].public_key, "pk-0");

    let page = feed.list_sources(Some(1), Some(2));
    assert_eq!(page.len(), 2);
    assert_eq!(page[0].public_key, "pk-1");
    assert_eq!(page[1].public_key, "pk-2");

    let tail = feed.list_sources(Some(3), Some(10));
    assert_eq!(tail.len(), 1);
    assert_eq!(tail[0].public_key, "pk-3");

    let metadata = feed.nft_metadata();
    assert_eq!(metadata.symbol, "HUMINT");
}
