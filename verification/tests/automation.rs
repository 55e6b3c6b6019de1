use cookieclicker_save::automation::{store_building, Attempt, Building, Client, LocatorStrategy};

#[test]
fn store_buildings() {
    assert_eq!(store_building(Building::Cursor), "product0");
    assert_eq!(store_building(Building::Farms), "product2");
    assert_eq!(store_building(Building::Portal), "product10");
    assert_eq!(store_building(Building::You), "product19");
    assert_eq!(Building::Grandmas.index(), 1);
    assert_eq!(Building::CortexBaker.index(), 18);
}

#[test]
fn attempts() {
    assert_eq!(Client::new(()).retry_finish::<u8, &str>(Ok(Some(3)), false), Attempt::Done(3));
    assert_eq!(Client::new(()).retry_finish::<u8, &str>(Ok(Some(3)), true), Attempt::Done(3));
    assert_eq!(Client::new(()).retry_finish::<u8, &str>(Ok(None), false), Attempt::Again);
    assert_eq!(Client::new(()).retry_finish::<u8, &str>(Err("gone"), true), Attempt::Again);
    assert_eq!(Client::new(()).retry_finish::<u8, &str>(Err("broken"), false), Attempt::Failed("broken"));
}

#[test]
fn clicks_that_may_be_skipped() {
    assert_eq!(Client::new(()).click_maybe::<&str>(Ok(()), false), Ok(true));
    assert_eq!(Client::new(()).click_maybe::<&str>(Err("gone"), true), Ok(false));
    assert_eq!(Client::new(()).click_maybe::<&str>(Err("broken"), false), Err("broken"));
}

#[test]
fn clients() {
    let client = Client::new(7u8);
    assert_eq!(*client.driver(), 7);
    assert_ne!(LocatorStrategy::CSSSelector, LocatorStrategy::LinkText);
}
