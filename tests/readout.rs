use pyarc2::channels::slice_channels;
use pyarc2::error::Arc2Error;
use pyarc2::directives::DataMode;
use pyarc2::readout::{ascending_channels, check_slab_address, mask_slice, select_frame};

#[test]
fn masked_read_keeps_positions() {
    let full: Vec<f32> = (0..32).map(|i| i as f32 * 1.5).collect();
    let masked = mask_slice(&full, 5, &[17, 50]);
    assert_eq!(masked.len(), 32);
    let line = slice_channels(5);
    for i in 0..32 {
        if line[i] == 17 || line[i] == 50 {
            assert_eq!(masked[i], Some(full[i]));
        } else {
            assert_eq!(masked[i], None);
        }
    }
    assert_eq!(masked[1], Some(1.5));
    assert_eq!(masked[18], Some(27.0));
    let as_nan: Vec<f32> = masked.iter().map(|v| v.unwrap_or(f32::NAN)).collect();
    assert_eq!(as_nan.iter().filter(|v| !v.is_nan()).count(), 2);
}

#[test]
fn masked_read_on_column() {
    let full: Vec<u32> = (100..132).collect();
    let masked = mask_slice(&full, 20, &[0, 47, 20]);
    assert_eq!(masked[0], Some(100));
    assert_eq!(masked[31], Some(131));
    assert_eq!(masked.iter().filter(|v| v.is_some()).count(), 2);
    let none = mask_slice(&full, 20, &[]);
    assert!(none.iter().all(|v| v.is_none()));
    let all = mask_slice(&full, 20, &slice_channels(20));
    assert!(all.iter().zip(full.iter()).all(|(m, f)| *m == Some(*f)));
}

#[test]
fn ascending_keeps_duplicates() {
    assert_eq!(ascending_channels(&[5, 1, 3]), vec![1, 3, 5]);
    assert_eq!(ascending_channels(&[5, 1, 5, 63, 0]), vec![0, 1, 5, 5, 63]);
    assert_eq!(ascending_channels(&[]), Vec::<usize>::new());
}

#[test]
fn slab_addresses() {
    assert_eq!(check_slab_address(0), Ok(()));
    assert_eq!(check_slab_address(256), Ok(()));
    assert_eq!(check_slab_address(1_073_741_568), Ok(()));
    assert_eq!(check_slab_address(100), Err(Arc2Error::MemoryAccessFailure(100)));
    assert_eq!(check_slab_address(1_073_741_824), Err(Arc2Error::MemoryAccessFailure(1_073_741_824)));
}

#[test]
fn frame_selection_by_mode() {
    let frame: Vec<u16> = (0..64).collect();
    let words = select_frame(&frame, DataMode::Words);
    let expected_words: Vec<u16> = (16..32).chain(48..64).collect();
    assert_eq!(words, expected_words);
    let bits = select_frame(&frame, DataMode::Bits);
    let expected_bits: Vec<u16> = (0..16).chain(32..48).collect();
    assert_eq!(bits, expected_bits);
    assert_eq!(select_frame(&frame, DataMode::All), frame);
}
