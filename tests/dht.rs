use corvus::{Errors, Reading};

fn pulses_for(bytes: [u8; 5]) -> Vec<(i64, i64)> {
    let mut v = Vec::new();
    for b in bytes {
        for k in (0..8).rev() {
            if (b >> k) & 1 == 1 {
                v.push((70, 70));
            } else {
                v.push((25, 25));
            }
        }
    }
    v
}

#[test]
fn decodes_humidity_and_temperature() {
    // 65.2 % and 23.5 °C; checksum (2 + 140 + 0 + 235) mod 256 = 121
    let r = Reading::from_pulses(&pulses_for([2, 140, 0, 235, 121])).unwrap();
    assert_eq!(r, Reading { humidity_tenths: 652, temperature_tenths: 235 });
}

#[test]
fn leading_noise_is_ignored() {
    let mut v = vec![(25, 25), (70, 70), (70, 70)];
    v.extend(pulses_for([1, 0, 0, 100, 101]));
    assert_eq!(Reading::from_pulses(&v).unwrap(), Reading { humidity_tenths: 256, temperature_tenths: 100 });
}

#[test]
fn bad_checksum_is_rejected() {
    assert_eq!(Reading::from_pulses(&pulses_for([2, 140, 0, 235, 120])), Err(Errors::Checksum));
}

#[test]
fn sign_bit_makes_temperature_negative() {
    // -0.5 °C
    assert_eq!(
        Reading::from_pulses(&pulses_for([0, 0, 128, 5, 133])),
        Ok(Reading { humidity_tenths: 0, temperature_tenths: -5 })
    );
    // -12.3 °C: 123 = 0x007B, with the sign bit 0x80 0x7B
    assert_eq!(
        Reading::from_pulses(&pulses_for([1, 244, 128, 123, 240])),
        Ok(Reading { humidity_tenths: 500, temperature_tenths: -123 })
    );
    // negative zero is zero
    assert_eq!(
        Reading::from_pulses(&pulses_for([0, 10, 128, 0, 138])),
        Ok(Reading { humidity_tenths: 10, temperature_tenths: 0 })
    );
}

#[test]
fn values_outside_the_sensor_range_still_decode() {
    // humidity 100.1 %
    assert_eq!(
        Reading::from_pulses(&pulses_for([3, 233, 0, 0, 236])),
        Ok(Reading { humidity_tenths: 1001, temperature_tenths: 0 })
    );
    // 60.1 °C: 601 = 0x0259
    assert_eq!(
        Reading::from_pulses(&pulses_for([0, 0, 2, 89, 91])),
        Ok(Reading { humidity_tenths: 0, temperature_tenths: 601 })
    );
    // checksum of a sum above 255 is taken modulo 256
    assert_eq!(
        Reading::from_pulses(&pulses_for([255, 255, 127, 255, 124])),
        Ok(Reading { humidity_tenths: 65535, temperature_tenths: 32767 })
    );
}

#[test]
fn too_few_pulses_time_out() {
    assert_eq!(Reading::from_pulses(&vec![(25, 25); 10]), Err(Errors::Timeout(10)));
    assert_eq!(Reading::from_pulses(&Vec::new()), Err(Errors::Timeout(0)));
}

fn with_last_pair_of_byte3(pair: (i64, i64), checksum: u8) -> Vec<(i64, i64)> {
    let mut v = vec![(25, 25); 30];
    v.push(pair);
    v.extend(pulses_for([checksum, 0, 0, 0, 0]).into_iter().take(8));
    v
}

#[test]
fn long_pulses_split_into_two_bits() {
    // a long low pulse: its high part, then what is left of the low part (0 then 1)
    assert_eq!(
        Reading::from_pulses(&with_last_pair_of_byte3((150, 30), 1)),
        Ok(Reading { humidity_tenths: 0, temperature_tenths: 1 })
    );
    // a long pair near two bit lengths: (110 + 120) / 4 = 57, read as 82 then 32 (1 then 0)
    assert_eq!(
        Reading::from_pulses(&with_last_pair_of_byte3((160, 170), 2)),
        Ok(Reading { humidity_tenths: 0, temperature_tenths: 2 })
    );
    // a very long pair: (250 + 250) / 4 = 125 twice (1 then 1)
    assert_eq!(
        Reading::from_pulses(&with_last_pair_of_byte3((300, 300), 3)),
        Ok(Reading { humidity_tenths: 0, temperature_tenths: 3 })
    );
}
