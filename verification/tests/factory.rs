use jamsession::factory::CrashableAgentFactory;
use std::time::Duration;

#[test]
fn crashable_factory_keeps_inner_and_fuse() {
    let f = CrashableAgentFactory::new("inner-factory", Duration::from_millis(200));
    assert_eq!(*f.inner(), "inner-factory");
    assert_eq!(f.crash_after(), Duration::from_millis(200));
}
