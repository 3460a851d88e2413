use vex_rt::error::Error;
use vex_rt::rotation::{RotationSensor, RotationSensorData, RotationSensorError};

#[test]
fn classify_tells_the_three_failures_apart() {
    assert_eq!(
        RotationSensorError::classify(6, 6, 19),
        RotationSensorError::PortOutOfRange
    );
    assert_eq!(
        RotationSensorError::classify(19, 6, 19),
        RotationSensorError::PortNotDistanceSensor
    );
    assert_eq!(
        RotationSensorError::classify(5, 6, 19),
        RotationSensorError::Unknown(5)
    );
    assert_eq!(
        RotationSensorError::classify(7, 7, 7),
        RotationSensorError::PortOutOfRange
    );
}

#[test]
fn from_errno_goes_by_the_platforms_numbers() {
    assert_eq!(
        RotationSensorError::from_errno(libc::ENXIO),
        RotationSensorError::PortOutOfRange
    );
    assert_eq!(
        RotationSensorError::from_errno(libc::ENODEV),
        RotationSensorError::PortNotDistanceSensor
    );
    assert_eq!(
        RotationSensorError::from_errno(libc::EINVAL),
        RotationSensorError::Unknown(libc::EINVAL)
    );
    assert_eq!(
        RotationSensorError::from_errno(0),
        RotationSensorError::Unknown(0)
    );
}

#[test]
fn into_error_names_the_port_failures() {
    match RotationSensorError::PortOutOfRange.into_error() {
        Error::Custom(s) => assert_eq!(s, "port out of range"),
        _ => panic!("expected words"),
    }
    match RotationSensorError::PortNotDistanceSensor.into_error() {
        Error::Custom(s) => assert_eq!(s, "port not a rotation sensor"),
        _ => panic!("expected words"),
    }
    match RotationSensorError::Unknown(33).into_error() {
        Error::System(n) => assert_eq!(n, 33),
        _ => panic!("expected a number"),
    }
}

#[test]
fn read_puts_three_readings_together() {
    assert_eq!(
        RotationSensor::read(Ok(1), Ok(-2), Ok(3)),
        Ok(RotationSensorData {
            position: 1,
            velocity: -2,
            angle: 3
        })
    );
    assert_eq!(
        RotationSensor::read(
            Err(RotationSensorError::PortOutOfRange),
            Err(RotationSensorError::Unknown(1)),
            Ok(3)
        ),
        Err(RotationSensorError::PortOutOfRange)
    );
    assert_eq!(
        RotationSensor::read(Ok(1), Err(RotationSensorError::Unknown(1)), Ok(3)),
        Err(RotationSensorError::Unknown(1))
    );
    assert_eq!(
        RotationSensor::read(Ok(1), Ok(2), Err(RotationSensorError::PortNotDistanceSensor)),
        Err(RotationSensorError::PortNotDistanceSensor)
    );
    assert_eq!(RotationSensor::new(4).port(), 4);
}
