use iso2raw::converter::{sync_pattern, ConvertError, Mode1Sector, SectorAddress};

#[test]
fn test_sector_address_conversion() {
    let addr = SectorAddress::from_lba(0);
    assert_eq!(addr.minute, 0);
    assert_eq!(addr.second, 2);
    assert_eq!(addr.frame, 0);

    let bcd = addr.to_bcd();
    assert_eq!(bcd, [0x00, 0x02, 0x00]);
}

#[test]
fn test_mode1_sector_creation() {
    let data = vec![0u8; 2048];
    let sector = Mode1Sector::new(0, &data).unwrap();

    assert_eq!(sector.sync, sync_pattern());
    assert_eq!(sector.header[3], 0x01); // Mode 1
}

#[test]
fn test_sector_address_max_lba() {
    // The largest in-range address: minute 99, second 59, frame 74.
    let addr = SectorAddress::from_lba(449849);
    assert_eq!(addr.minute, 99);
    assert_eq!(addr.second, 59);
    assert_eq!(addr.frame, 74);
    assert_eq!(addr.to_bcd(), [0x99, 0x59, 0x74]);
}

#[test]
fn test_sync_pattern_bytes() {
    assert_eq!(
        sync_pattern(),
        vec![0x00, 0xFF, 0xFF, 0xFF, 0xFF, 0xFF, 0xFF, 0xFF, 0xFF, 0xFF, 0xFF, 0x00]
    );
}

#[test]
fn test_sector_creation_rejects_wrong_size() {
    let short = vec![0u8; 100];
    match Mode1Sector::new(0, &short) {
        Err(ConvertError::SizeMismatch { expected, got }) => {
            assert_eq!(expected, 2048);
            assert_eq!(got, 100);
        }
        Ok(_) => panic!("a 100-byte block must be rejected"),
    }

    let long = vec![0u8; 2049];
    match Mode1Sector::new(0, &long) {
        Err(ConvertError::SizeMismatch { expected, got }) => {
            assert_eq!(expected, 2048);
            assert_eq!(got, 2049);
        }
        Ok(_) => panic!("a 2049-byte block must be rejected"),
    }
}
