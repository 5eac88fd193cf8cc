use ws_net::reload::ConfigWatch;

#[test]
fn a_configuration_is_read_again_when_its_time_changes() {
    let mut watch = ConfigWatch::new(Some(5));
    assert!(!watch.observe(Some(5)));
    assert!(!watch.observe(None));
    assert!(watch.observe(Some(4)));
    assert!(!watch.observe(Some(4)));
    let mut unknown = ConfigWatch::new(None);
    assert!(!unknown.observe(None));
    assert!(unknown.observe(Some(0)));
}
