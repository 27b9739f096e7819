use intel_registry::source_list::{ListError, SourceListNFT};

fn minted() -> (SourceListNFT, String) {
    let mut nft = SourceListNFT::new("platform.near".to_string());
    let token_id = nft
        .mint(
            "creator.near".to_string(),
            100,
            "OSINT Europe".to_string(),
            "Curated European sources".to_string(),
            "QmListCid".to_string(),
            32,
            "geopolitics".to_string(),
            Some(1_000_000),
            None,
        )
        .unwrap();
    (nft, token_id)
}

#[test]
fn minting_assigns_sequential_identifiers() {
    let (mut nft, first) = minted();
    assert_eq!(first, "srclist-1");
    let second = nft
        .mint(
            "creator.near".to_string(),
            101,
            "Second".to_string(),
            "More".to_string(),
            "QmOther".to_string(),
            5,
            "finance".to_string(),
            None,
            Some(25),
        )
        .unwrap();
    assert_eq!(second, "srclist-2");
    assert_eq!(nft.nft_total_supply(), 2);

    let list = nft.get_list_metadata("srclist-1".to_string()).unwrap();
    assert_eq!(list.cid, "QmListCid");
    assert_eq!(list.source_count, 32);
    assert_eq!(list.royalty_percent, 10);
    assert_eq!(list.price, Some(1_000_000));

    let second_list = nft.get_list_metadata("srclist-2".to_string()).unwrap();
    assert_eq!(second_list.royalty_percent, 25);
    assert_eq!(second_list.price, None);
}

#[test]
fn royalty_is_capped_at_minting() {
    let mut nft = SourceListNFT::new("platform.near".to_string());
    let r = nft.mint(
        "creator.near".to_string(),
        100,
        "n".to_string(),
        "d".to_string(),
        "c".to_string(),
        1,
        "x".to_string(),
        None,
        Some(51),
    );
    assert_eq!(r.unwrap_err(), ListError::RoyaltyTooHigh);
    assert_eq!(nft.nft_total_supply(), 0);
}

#[test]
fn only_the_owner_updates_and_prices() {
    let (mut nft, token_id) = minted();

    let r = nft.update_list("mallory".to_string(), 200, token_id.clone(), "Qm2".to_string(), 40);
    assert_eq!(r.unwrap_err(), ListError::NotTokenOwner);

    nft.update_list("creator.near".to_string(), 200, token_id.clone(), "Qm2".to_string(), 40)
        .unwrap();
    let list = nft.get_list_metadata(token_id.clone()).unwrap();
    assert_eq!(list.cid, "Qm2");
    assert_eq!(list.source_count, 40);
    assert_eq!(list.updated_at, 200);

    nft.set_price("creator.near".to_string(), token_id.clone(), None).unwrap();
    assert_eq!(nft.get_list_metadata(token_id).unwrap().price, None);
}

#[test]
fn ratings_average_in_hundredths() {
    let (mut nft, token_id) = minted();

    assert_eq!(nft.rate_list(token_id.clone(), 0).unwrap_err(), ListError::InvalidRating);
    assert_eq!(nft.rate_list(token_id.clone(), 6).unwrap_err(), ListError::InvalidRating);

    nft.rate_list(token_id.clone(), 5).unwrap();
    nft.rate_list(token_id.clone(), 4).unwrap();
    let list = nft.get_list_metadata(token_id.clone()).unwrap();
    assert_eq!(list.rating_count, 2);
    // (500 + 400) / 2
    assert_eq!(list.avg_rating, 450);

    nft.rate_list(token_id.clone(), 4).unwrap();
    // (450*2 + 400) / 3 == 433
    assert_eq!(nft.get_list_metadata(token_id).unwrap().avg_rating, 433);
}

#[test]
fn purchase_moves_ownership_and_splits_payment() {
    let (mut nft, token_id) = minted();

    let r = nft.purchase("buyer.near".to_string(), 10, token_id.clone());
    assert_eq!(r.unwrap_err(), ListError::InsufficientDeposit);
    let r = nft.purchase("creator.near".to_string(), 1_000_000, token_id.clone());
    assert_eq!(r.unwrap_err(), ListError::CannotBuyOwn);

    let payout = nft.purchase("buyer.near".to_string(), 1_000_000, token_id.clone()).unwrap();
    assert_eq!(payout.seller, "creator.near");
    assert_eq!(payout.creator, "creator.near");
    assert_eq!(payout.royalty_amount, 100_000);
    assert_eq!(payout.seller_amount, 900_000);

    assert!(nft.has_access("buyer.near".to_string(), token_id.clone()));
    assert!(!nft.has_access("creator.near".to_string(), token_id.clone()));

    // an unpriced token is not for sale
    nft.set_price("buyer.near".to_string(), token_id.clone(), None).unwrap();
    let r = nft.purchase("other.near".to_string(), 1_000_000, token_id);
    assert_eq!(r.unwrap_err(), ListError::NotForSale);
}

#[test]
fn transfers_and_enumeration() {
    let (mut nft, token_id) = minted();

    let r = nft.nft_transfer(
        "mallory".to_string(),
        "mallory".to_string(),
        token_id.clone(),
        None,
        None,
    );
    assert_eq!(r.unwrap_err(), ListError::NotTokenOwner);

    nft.nft_transfer("creator.near".to_string(), "bob.near".to_string(), token_id.clone(), None, None)
        .unwrap();
    assert_eq!(nft.nft_token(token_id.clone()).unwrap().owner_id, "bob.near");
    assert_eq!(nft.nft_supply_for_owner("bob.near".to_string()), 1);
    assert_eq!(nft.nft_supply_for_owner("creator.near".to_string()), 0);
    assert_eq!(nft.get_lists_for_owner("bob.near".to_string()), vec!["srclist-1".to_string()]);

    let all = nft.get_all_lists(None, None);
    assert_eq!(all.len(), 1);
    assert_eq!(all[0].0, "srclist-1");
    let for_sale = nft.get_lists_for_sale(None, None);
    assert_eq!(for_sale.len(), 1);

    assert_eq!(nft.nft_metadata().symbol, "ASRC");

    let views = nft.nft_tokens_for_owner("bob.near".to_string(), None, None);
    assert_eq!(views.len(), 1);
    assert_eq!(views[0].token_id, "srclist-1");
    assert_eq!(views[0].metadata.title, Some("OSINT Europe".to_string()));
    assert_eq!(
        views[0].metadata.extra,
        Some("{\"domain\":\"geopolitics\",\"sources\":32}".to_string())
    );
    assert_eq!(views[0].metadata.reference, Some("ipfs://QmListCid".to_string()));
    assert!(nft.nft_tokens_for_owner("creator.near".to_string(), None, None).is_empty());
}
