use zigbee_cluster_library::measurement::server::MeasurementServer;
use zigbee_cluster_library::types::error::AttrError;

type TestMeasurementServer = MeasurementServer<i16, 0xFC00>;

#[test]
fn generated_measurement_getters_expose_private_fields() {
    let mut server = TestMeasurementServer::new();
    server.set_measured_value(Some(10)).unwrap();
    server.set_min_measured_value(Some(0)).unwrap();
    server.set_max_measured_value(Some(20)).unwrap();
    server.set_tolerance(3).unwrap();

    assert_eq!(server.measured_value(), Some(10));
    assert_eq!(server.min_measured_value(), Some(0));
    assert_eq!(server.max_measured_value(), Some(20));
    assert_eq!(server.tolerance(), 3);
}

#[test]
fn generated_measurement_setters_enforce_known_bounds() {
    let mut server = TestMeasurementServer::new();
    server.set_min_measured_value(Some(0)).unwrap();
    server.set_max_measured_value(Some(20)).unwrap();

    assert_eq!(
        server.set_measured_value(Some(21)),
        Err(AttrError::InvalidValue)
    );
    assert_eq!(server.measured_value(), None);

    server.set_measured_value(Some(10)).unwrap();
    assert_eq!(
        server.set_min_measured_value(Some(11)),
        Err(AttrError::InvalidValue)
    );
    assert_eq!(
        server.set_max_measured_value(Some(9)),
        Err(AttrError::InvalidValue)
    );
}
