use haste::haste_broadcast::httpbroadcast::{AppId, FragmentType};
use haste::haste_broadcast::requests::{fragment_url, start_url, sync_url, user_agent};

#[test]
fn broadcast_urls() {
    let base = "http://dist1-ord1.steamcontent.com/tv/18895867";
    assert_eq!(sync_url(base), "http://dist1-ord1.steamcontent.com/tv/18895867/sync");
    assert_eq!(start_url(base, 0), "http://dist1-ord1.steamcontent.com/tv/18895867/0/start");
    assert_eq!(start_url(base, 1234), "http://dist1-ord1.steamcontent.com/tv/18895867/1234/start");
    assert_eq!(fragment_url(base, 99, FragmentType::Full), format!("{}/99/full", base));
    assert_eq!(fragment_url(base, 100, FragmentType::Delta), format!("{}/100/delta", base));
    assert_eq!(fragment_url("b", -7, FragmentType::Delta), "b/-7/delta");
    assert_eq!(fragment_url("b", i32::MIN, FragmentType::Full), format!("b/{}/full", i32::MIN));
    assert_eq!(fragment_url("b", i32::MAX, FragmentType::Full), format!("b/{}/full", i32::MAX));
}

#[test]
fn the_user_agent_names_the_game() {
    assert_eq!(user_agent(AppId::Deadlock), "Valve/Steam HTTP Client 1.0 (1422450)");
}
