use oskernel::config::Resource;

#[test]
fn resource_new_maps_numbers() {
    assert_eq!(Resource::new(0), Some(Resource::CPU));
    assert_eq!(Resource::new(7), Some(Resource::NOFILE));
    assert_eq!(Resource::new(15), Some(Resource::RTTIME));
    assert_eq!(Resource::new(16), None);
    assert_eq!(Resource::new(-1), None);
}
