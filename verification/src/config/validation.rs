//! Checks of values that come with a command.
use vstd::arithmetic::power2::*;
use vstd::prelude::*;
use crate::binary32;
use crate::binary32::Binary32;
use crate::config::settings;
use crate::error::{ErrorKind, MirrorStarError};
use crate::text;

verus! {

/// Whether a volume is a finite number from 0 to 1.
pub open spec fn volume_ok(value: Binary32) -> bool {
    &&& value.finite()
    &&& (Binary32 { bits: binary32::ZERO }).at_most(value)
    &&& value.at_most(Binary32 { bits: binary32::ONE })
}

/// Whether a speed is a finite number above 0 and up to 10.
pub open spec fn speed_ok(value: Binary32) -> bool {
    value.finite() && settings::speed_in_range(value)
}

/// Accepts a volume from 0 to 1; an error, which names the volume as `shown`, for any
/// other.
pub fn validate_volume(value: Binary32, shown: &str) -> (r: Result<(), MirrorStarError>)
    ensures
        if volume_ok(value) {
            r is Ok
        } else {
            r matches Err(e) && e@ == (
                ErrorKind::InvalidArgument,
                "音量必须在 0.0-1.0 之间，实际: "@ + shown@,
            )
        },
{
    let zero = Binary32 { bits: binary32::ZERO };
    let one = Binary32 { bits: binary32::ONE };
    if !value.is_finite() || !(zero.is_at_most(value) && value.is_at_most(one)) {
        return Err(
            MirrorStarError::InvalidArgument {
                reason: text::join2("音量必须在 0.0-1.0 之间，实际: ", shown),
            },
        );
    }
    Ok(())
}

/// Accepts a speed above 0 and up to 10; an error, which names the speed as `shown`,
/// for any other.
pub fn validate_speed(value: Binary32, shown: &str) -> (r: Result<(), MirrorStarError>)
    ensures
        if speed_ok(value) {
            r is Ok
        } else {
            r matches Err(e) && e@ == (
                ErrorKind::InvalidArgument,
                "播放速度必须在 0.0-10.0 之间且大于 0，实际: "@ + shown@,
            )
        },
{
    let zero = Binary32 { bits: binary32::ZERO };
    let ten = Binary32 { bits: binary32::TEN };
    if !value.is_finite() || value.is_at_most(zero) || ten.is_less(value) {
        return Err(
            MirrorStarError::InvalidArgument {
                reason: text::join2("播放速度必须在 0.0-10.0 之间且大于 0，实际: ", shown),
            },
        );
    }
    Ok(())
}

/// What passes the checks is left alone when the settings are validated.
pub proof fn law_checks_agree_with_settings(value: Binary32)
    ensures
        volume_ok(value) ==> settings::valid_volume(value) == value,
        speed_ok(value) <==> settings::speed_in_range(value),
{
}

/// A volume passes exactly if it lies from 0 to 1 and a speed exactly if it lies above 0 and
/// at 10 or below, as numbers; what is infinite or no number never passes.
pub proof fn law_checks(value: Binary32)
    ensures
        value.bits as int / 0x80_0000 % 0x100 == 0xff ==> !volume_ok(value) && !speed_ok(value),
        value.bits as int / 0x80_0000 % 0x100 != 0xff ==> {
            &&& volume_ok(value) <==> 0 <= value.scaled() <= pow2(149)
            &&& speed_ok(value) <==> 0 < value.scaled() <= 10 * pow2(149)
        },
{
    binary32::law_named_numbers();
    if value.bits as int / 0x80_0000 % 0x100 != 0xff {
        binary32::law_order_is_numeric(Binary32 { bits: 0 }, value);
        binary32::law_order_is_numeric(value, Binary32 { bits: 0x3f80_0000 });
        binary32::law_order_is_numeric(value, Binary32 { bits: 0x4120_0000 });
    } else {
        binary32::law_special_values(value, value);
    }
}

} // verus!
