//! Enumerations that attributes hold.

use vstd::prelude::*;

use crate::types::error::ZclError;

verus! {

/// How a light's colour is given.
#[derive(Clone, Copy, Debug, PartialEq, Eq, Structural)]
pub enum ColorMode {
    HueSaturation,
    XY,
    ColorTemperature,
}

impl ColorMode {
    /// The variant's byte on the wire.
    pub open spec fn raw(self) -> u8 {
        match self {
            ColorMode::HueSaturation => 0,
            ColorMode::XY => 1,
            ColorMode::ColorTemperature => 2,
        }
    }

    pub fn into_raw(self) -> (raw: u8)
        ensures
            raw == self.raw(),
    {
        match self {
            ColorMode::HueSaturation => 0,
            ColorMode::XY => 1,
            ColorMode::ColorTemperature => 2,
        }
    }

    /// The variant with byte `raw`, if there is one.
    pub open spec fn of(raw: u8) -> Option<Self> {
        match raw {
            0 => Some(ColorMode::HueSaturation),
            1 => Some(ColorMode::XY),
            2 => Some(ColorMode::ColorTemperature),
            _ => None,
        }
    }

    /// The variant with byte `raw`.
    pub fn from_raw(raw: u8) -> (r: Result<Self, ZclError>)
        ensures
            r == match Self::of(raw) {
                Some(v) => Ok(v),
                None => Err(ZclError::InvalidEnumValue),
            },
    {
        match raw {
            0 => Ok(ColorMode::HueSaturation),
            1 => Ok(ColorMode::XY),
            2 => Ok(ColorMode::ColorTemperature),
            _ => Err(ZclError::InvalidEnumValue),
        }
    }

    /// Every variant comes back from its byte, and every byte of a variant from it.
    pub proof fn law_raw_round_trip(v: Self, raw: u8)
        ensures
            Self::of(v.raw()) == Some(v),
            Self::of(raw) matches Some(w) ==> w.raw() == raw,
    {
    }
}

/// What a thermostat may switch.
#[derive(Clone, Copy, Debug, PartialEq, Eq, Structural)]
pub enum ThermostatControlSequence {
    CoolingOnly,
    CoolingWithReheat,
    HeatingOnly,
    HeatingWithReheat,
    CoolingAndHeating,
    CoolingAndHeatingWithReheat,
}

impl ThermostatControlSequence {
    /// The variant's byte on the wire.
    pub open spec fn raw(self) -> u8 {
        match self {
            ThermostatControlSequence::CoolingOnly => 0,
            ThermostatControlSequence::CoolingWithReheat => 1,
            ThermostatControlSequence::HeatingOnly => 2,
            ThermostatControlSequence::HeatingWithReheat => 3,
            ThermostatControlSequence::CoolingAndHeating => 4,
            ThermostatControlSequence::CoolingAndHeatingWithReheat => 5,
        }
    }

    pub fn into_raw(self) -> (raw: u8)
        ensures
            raw == self.raw(),
    {
        match self {
            ThermostatControlSequence::CoolingOnly => 0,
            ThermostatControlSequence::CoolingWithReheat => 1,
            ThermostatControlSequence::HeatingOnly => 2,
            ThermostatControlSequence::HeatingWithReheat => 3,
            ThermostatControlSequence::CoolingAndHeating => 4,
            ThermostatControlSequence::CoolingAndHeatingWithReheat => 5,
        }
    }

    /// The variant with byte `raw`, if there is one.
    pub open spec fn of(raw: u8) -> Option<Self> {
        match raw {
            0 => Some(ThermostatControlSequence::CoolingOnly),
            1 => Some(ThermostatControlSequence::CoolingWithReheat),
            2 => Some(ThermostatControlSequence::HeatingOnly),
            3 => Some(ThermostatControlSequence::HeatingWithReheat),
            4 => Some(ThermostatControlSequence::CoolingAndHeating),
            5 => Some(ThermostatControlSequence::CoolingAndHeatingWithReheat),
            _ => None,
        }
    }

    /// The variant with byte `raw`.
    pub fn from_raw(raw: u8) -> (r: Result<Self, ZclError>)
        ensures
            r == match Self::of(raw) {
                Some(v) => Ok(v),
                None => Err(ZclError::InvalidEnumValue),
            },
    {
        match raw {
            0 => Ok(ThermostatControlSequence::CoolingOnly),
            1 => Ok(ThermostatControlSequence::CoolingWithReheat),
            2 => Ok(ThermostatControlSequence::HeatingOnly),
            3 => Ok(ThermostatControlSequence::HeatingWithReheat),
            4 => Ok(ThermostatControlSequence::CoolingAndHeating),
            5 => Ok(ThermostatControlSequence::CoolingAndHeatingWithReheat),
            _ => Err(ZclError::InvalidEnumValue),
        }
    }

    /// Every variant comes back from its byte, and every byte of a variant from it.
    pub proof fn law_raw_round_trip(v: Self, raw: u8)
        ensures
            Self::of(v.raw()) == Some(v),
            Self::of(raw) matches Some(w) ==> w.raw() == raw,
    {
    }
}

/// What a thermostat is doing.
#[derive(Clone, Copy, Debug, PartialEq, Eq, Structural)]
pub enum ThermostatSystemMode {
    Off,
    Auto,
    Cool,
    Heat,
    EmergencyHeating,
    Precooling,
    FanOnly,
    Dry,
    Sleep,
}

impl ThermostatSystemMode {
    /// The variant's byte on the wire.
    pub open spec fn raw(self) -> u8 {
        match self {
            ThermostatSystemMode::Off => 0,
            ThermostatSystemMode::Auto => 1,
            ThermostatSystemMode::Cool => 3,
            ThermostatSystemMode::Heat => 4,
            ThermostatSystemMode::EmergencyHeating => 5,
            ThermostatSystemMode::Precooling => 6,
            ThermostatSystemMode::FanOnly => 7,
            ThermostatSystemMode::Dry => 8,
            ThermostatSystemMode::Sleep => 9,
        }
    }

    pub fn into_raw(self) -> (raw: u8)
        ensures
            raw == self.raw(),
    {
        match self {
            ThermostatSystemMode::Off => 0,
            ThermostatSystemMode::Auto => 1,
            ThermostatSystemMode::Cool => 3,
            ThermostatSystemMode::Heat => 4,
            ThermostatSystemMode::EmergencyHeating => 5,
            ThermostatSystemMode::Precooling => 6,
            ThermostatSystemMode::FanOnly => 7,
            ThermostatSystemMode::Dry => 8,
            ThermostatSystemMode::Sleep => 9,
        }
    }

    /// The variant with byte `raw`, if there is one.
    pub open spec fn of(raw: u8) -> Option<Self> {
        match raw {
            0 => Some(ThermostatSystemMode::Off),
            1 => Some(ThermostatSystemMode::Auto),
            3 => Some(ThermostatSystemMode::Cool),
            4 => Some(ThermostatSystemMode::Heat),
            5 => Some(ThermostatSystemMode::EmergencyHeating),
            6 => Some(ThermostatSystemMode::Precooling),
            7 => Some(ThermostatSystemMode::FanOnly),
            8 => Some(ThermostatSystemMode::Dry),
            9 => Some(ThermostatSystemMode::Sleep),
            _ => None,
        }
    }

    /// The variant with byte `raw`.
    pub fn from_raw(raw: u8) -> (r: Result<Self, ZclError>)
        ensures
            r == match Self::of(raw) {
                Some(v) => Ok(v),
                None => Err(ZclError::InvalidEnumValue),
            },
    {
        match raw {
            0 => Ok(ThermostatSystemMode::Off),
            1 => Ok(ThermostatSystemMode::Auto),
            3 => Ok(ThermostatSystemMode::Cool),
            4 => Ok(ThermostatSystemMode::Heat),
            5 => Ok(ThermostatSystemMode::EmergencyHeating),
            6 => Ok(ThermostatSystemMode::Precooling),
            7 => Ok(ThermostatSystemMode::FanOnly),
            8 => Ok(ThermostatSystemMode::Dry),
            9 => Ok(ThermostatSystemMode::Sleep),
            _ => Err(ZclError::InvalidEnumValue),
        }
    }

    /// Every variant comes back from its byte, and every byte of a variant from it.
    pub proof fn law_raw_round_trip(v: Self, raw: u8)
        ensures
            Self::of(v.raw()) == Some(v),
            Self::of(raw) matches Some(w) ==> w.raw() == raw,
    {
    }
}

/// Construction of a light sensor.
#[derive(Clone, Copy, Debug, PartialEq, Eq, Structural)]
pub enum LightSensorType {
    Photodiode,
    Cmos,
}

impl LightSensorType {
    /// The variant's byte on the wire.
    pub open spec fn raw(self) -> u8 {
        match self {
            LightSensorType::Photodiode => 0,
            LightSensorType::Cmos => 1,
        }
    }

    pub fn into_raw(self) -> (raw: u8)
        ensures
            raw == self.raw(),
    {
        match self {
            LightSensorType::Photodiode => 0,
            LightSensorType::Cmos => 1,
        }
    }

    /// The variant with byte `raw`, if there is one.
    pub open spec fn of(raw: u8) -> Option<Self> {
        match raw {
            0 => Some(LightSensorType::Photodiode),
            1 => Some(LightSensorType::Cmos),
            _ => None,
        }
    }

    /// The variant with byte `raw`.
    pub fn from_raw(raw: u8) -> (r: Result<Self, ZclError>)
        ensures
            r == match Self::of(raw) {
                Some(v) => Ok(v),
                None => Err(ZclError::InvalidEnumValue),
            },
    {
        match raw {
            0 => Ok(LightSensorType::Photodiode),
            1 => Ok(LightSensorType::Cmos),
            _ => Err(ZclError::InvalidEnumValue),
        }
    }

    /// Every variant comes back from its byte, and every byte of a variant from it.
    pub proof fn law_raw_round_trip(v: Self, raw: u8)
        ensures
            Self::of(v.raw()) == Some(v),
            Self::of(raw) matches Some(w) ==> w.raw() == raw,
    {
    }
}

/// Construction of an occupancy sensor.
#[derive(Clone, Copy, Debug, PartialEq, Eq, Structural)]
pub enum OccupancySensorType {
    Pir,
    Ultrasonic,
    PirAndUltrasonic,
    PhysicalContact,
}

impl OccupancySensorType {
    /// The variant's byte on the wire.
    pub open spec fn raw(self) -> u8 {
        match self {
            OccupancySensorType::Pir => 0,
            OccupancySensorType::Ultrasonic => 1,
            OccupancySensorType::PirAndUltrasonic => 2,
            OccupancySensorType::PhysicalContact => 3,
        }
    }

    pub fn into_raw(self) -> (raw: u8)
        ensures
            raw == self.raw(),
    {
        match self {
            OccupancySensorType::Pir => 0,
            OccupancySensorType::Ultrasonic => 1,
            OccupancySensorType::PirAndUltrasonic => 2,
            OccupancySensorType::PhysicalContact => 3,
        }
    }

    /// The variant with byte `raw`, if there is one.
    pub open spec fn of(raw: u8) -> Option<Self> {
        match raw {
            0 => Some(OccupancySensorType::Pir),
            1 => Some(OccupancySensorType::Ultrasonic),
            2 => Some(OccupancySensorType::PirAndUltrasonic),
            3 => Some(OccupancySensorType::PhysicalContact),
            _ => None,
        }
    }

    /// The variant with byte `raw`.
    pub fn from_raw(raw: u8) -> (r: Result<Self, ZclError>)
        ensures
            r == match Self::of(raw) {
                Some(v) => Ok(v),
                None => Err(ZclError::InvalidEnumValue),
            },
    {
        match raw {
            0 => Ok(OccupancySensorType::Pir),
            1 => Ok(OccupancySensorType::Ultrasonic),
            2 => Ok(OccupancySensorType::PirAndUltrasonic),
            3 => Ok(OccupancySensorType::PhysicalContact),
            _ => Err(ZclError::InvalidEnumValue),
        }
    }

    /// Every variant comes back from its byte, and every byte of a variant from it.
    pub proof fn law_raw_round_trip(v: Self, raw: u8)
        ensures
            Self::of(v.raw()) == Some(v),
            Self::of(raw) matches Some(w) ==> w.raw() == raw,
    {
    }
}

} // verus!
