//! What a rotation sensor reports, and how its failures are told apart.

use vstd::prelude::*;
use crate::error::Error;

verus! {

/// A smart port configured as a rotation sensor.
#[derive(Debug)]
pub struct RotationSensor {
    port: u8,
}

/// The readings of a rotation sensor.
#[derive(Clone, Copy, Debug, PartialEq, Eq, Structural)]
pub struct RotationSensorData {
    /// The current position in centidegrees.
    pub position: i32,
    /// The current velocity in centidegrees per second.
    pub velocity: i32,
    /// The current angle in centidegrees (0-36000).
    pub angle: i32,
}

/// Why an operation on a rotation sensor failed.
#[derive(Clone, Copy, Debug, PartialEq, Eq, Structural)]
pub enum RotationSensorError {
    /// The port is out of range (1-21).
    PortOutOfRange,
    /// The port cannot be configured as a rotation sensor.
    PortNotDistanceSensor,
    /// Another failure, by the number the system gave it.
    Unknown(i32),
}

/// The error number that `libc` gives as `ENXIO` on this platform. Nothing
/// is claimed about which number it is.
#[verifier::external_body]
fn errno_no_such_address() -> (r: i32) {
    libc::ENXIO
}

/// The error number that `libc` gives as `ENODEV` on this platform. Nothing
/// is claimed about which number it is.
#[verifier::external_body]
fn errno_no_such_device() -> (r: i32) {
    libc::ENODEV
}

impl RotationSensor {
    /// The number of the port.
    pub closed spec fn spec_port(&self) -> u8 {
        self.port
    }

    /// The sensor on `port`.
    pub fn new(port: u8) -> (r: RotationSensor)
        ensures
            r.spec_port() == port,
    {
        RotationSensor { port }
    }

    /// The number of the port.
    pub fn port(&self) -> (r: u8)
        ensures
            r == self.spec_port(),
    {
        self.port
    }

    /// Puts three readings together. The first reading that failed, in the
    /// order position, velocity, angle, is the failure of the whole.
    pub fn read(
        position: Result<i32, RotationSensorError>,
        velocity: Result<i32, RotationSensorError>,
        angle: Result<i32, RotationSensorError>,
    ) -> (r: Result<RotationSensorData, RotationSensorError>)
        ensures
            r == match (position, velocity, angle) {
                (Err(e), _, _) => Err::<RotationSensorData, RotationSensorError>(e),
                (Ok(_), Err(e), _) => Err(e),
                (Ok(_), Ok(_), Err(e)) => Err(e),
                (Ok(p), Ok(v), Ok(a)) => Ok(
                    RotationSensorData { position: p, velocity: v, angle: a },
                ),
            },
    {
        match position {
            Err(e) => Err(e),
            Ok(p) => match velocity {
                Err(e) => Err(e),
                Ok(v) => match angle {
                    Err(e) => Err(e),
                    Ok(a) => Ok(RotationSensorData { position: p, velocity: v, angle: a }),
                },
            },
        }
    }
}

impl RotationSensorError {
    /// The failure that the error number `errno` stands for, where
    /// `no_such_address` and `no_such_device` are the platform's numbers for
    /// those two conditions.
    pub open spec fn spec_classify(errno: i32, no_such_address: i32, no_such_device: i32) -> Self {
        if errno == no_such_address {
            RotationSensorError::PortOutOfRange
        } else if errno == no_such_device {
            RotationSensorError::PortNotDistanceSensor
        } else {
            RotationSensorError::Unknown(errno)
        }
    }

    /// The failure that the error number `errno` stands for, where
    /// `no_such_address` and `no_such_device` are the platform's numbers for
    /// those two conditions.
    pub fn classify(errno: i32, no_such_address: i32, no_such_device: i32) -> (r: Self)
        ensures
            r == Self::spec_classify(errno, no_such_address, no_such_device),
    {
        if errno == no_such_address {
            RotationSensorError::PortOutOfRange
        } else if errno == no_such_device {
            RotationSensorError::PortNotDistanceSensor
        } else {
            RotationSensorError::Unknown(errno)
        }
    }

    /// The failure that the error number `errno` stands for on this
    /// platform. Whatever the platform's numbers are, an unknown failure
    /// carries `errno` itself.
    pub fn from_errno(errno: i32) -> (r: Self)
        ensures
            exists|a: i32, b: i32| r == Self::spec_classify(errno, a, b),
            r matches RotationSensorError::Unknown(n) ==> n == errno,
    {
        let a = errno_no_such_address();
        let b = errno_no_such_device();
        let r = Self::classify(errno, a, b);
        assert(r == Self::spec_classify(errno, a, b));
        r
    }

    /// The same failure as a general error: the two failures of the port in
    /// words, any other by its number.
    pub fn into_error(self) -> (r: Error)
        ensures
            match self {
                RotationSensorError::PortOutOfRange => r matches Error::Custom(s) && s@
                    == "port out of range"@,
                RotationSensorError::PortNotDistanceSensor => r matches Error::Custom(s) && s@
                    == "port not a rotation sensor"@,
                RotationSensorError::Unknown(n) => r == Error::System(n),
            },
    {
        match self {
            RotationSensorError::PortOutOfRange => Error::Custom("port out of range".to_owned()),
            RotationSensorError::PortNotDistanceSensor => Error::Custom(
                "port not a rotation sensor".to_owned(),
            ),
            RotationSensorError::Unknown(n) => Error::System(n),
        }
    }
}

} // verus!
