use srtm_embedded::{Coord, Error, HgtReader, Resolution, Tile};

/// An in-memory storage backend: a set of named synthetic grid files.
struct MemReader {
    files: Vec<(String, Vec<u8>)>,
    open_ix: Option<usize>,
    name: String,
}

impl MemReader {
    fn new(files: Vec<(String, Vec<u8>)>) -> Self {
        MemReader { files, open_ix: None, name: String::new() }
    }
}

impl HgtReader for MemReader {
    fn open_hgt_file(&mut self, file_name: &str) -> Result<(), Error> {
        if self.open_ix.is_some() {
            if self.name != file_name {
                let _ = self.close_hgt_file();
            } else {
                return Ok(());
            }
        }
        match self.files.iter().position(|f| f.0 == file_name) {
            Some(i) => {
                self.open_ix = Some(i);
                self.name = file_name.to_string();
                Ok(())
            }
            None => Err(Error::FileNotFound),
        }
    }

    fn check_hgt_file(&self, expt_len: u64) -> Result<(), Error> {
        match self.open_ix {
            Some(i) => {
                if self.files[i].1.len() as u64 == expt_len {
                    Ok(())
                } else {
                    Err(Error::Filesize)
                }
            }
            None => Err(Error::NotFound),
        }
    }

    fn read_hgt_data(&mut self, pos: u64, buffer: &mut [u8; 2]) -> Result<(), Error> {
        match self.open_ix {
            Some(i) => {
                let p = pos as usize;
                if p + 2 <= self.files[i].1.len() {
                    buffer[0] = self.files[i].1[p];
                    buffer[1] = self.files[i].1[p + 1];
                    Ok(())
                } else {
                    Err(Error::Filesize)
                }
            }
            None => Err(Error::NotFound),
        }
    }

    fn close_hgt_file(&mut self) -> Result<(), Error> {
        if self.open_ix.is_some() {
            self.open_ix = None;
            self.name = String::new();
            Ok(())
        } else {
            Err(Error::NotFound)
        }
    }
}

/// A three-arc-second file (1201 x 1201 samples) with the given
/// big-endian values patched in at the given byte offsets.
fn srtm3_file(values: &[(usize, i16)]) -> Vec<u8> {
    let mut v = vec![0u8; 2884802];
    for &(off, h) in values {
        let b = h.to_be_bytes();
        v[off] = b[0];
        v[off + 1] = b[1];
    }
    v
}

/// Byte offset selected for (49.1, 8.2) under SRTM3:
/// row = round(0.9 * 1200) = 1080, col = round(0.2 * 1200) = 240,
/// offset = (1080 * 1201 + 240) * 2.
const OFFSET_49_1_8_2: usize = 2594640;

/// Byte offset for (49.1, 8.21): col = round(0.21 * 1200) = 252.
const OFFSET_49_1_8_21: usize = 2594664;

#[test]
fn test_check_filename() {
    let latitude = 491000000; // 49.1 degrees in ten-millionths
    let longitude = 82000000; // 8.2 degrees in ten-millionths
    let coords = Coord::new(latitude, longitude);
    let filename = coords.get_filename();
    let expected_filename = "N49E008.hgt"; // Assuming this is the expected format
    assert_eq!(filename, expected_filename, "Filename creation failed");
}

#[test]
fn test_get_one_value() {
    let latitude = 491000000; // 49.1 degrees
    let longitude = 82000000; // 8.2 degrees
    let reader = MemReader::new(vec![(
        "N49E008.hgt".to_string(),
        srtm3_file(&[(OFFSET_49_1_8_2, 126)]),
    )]);
    let mut tile = Tile::<MemReader>::new(Resolution::SRTM3, reader);
    let height = tile.get_height::<MemReader>(Coord::new(latitude, longitude));
    assert_eq!(height, Ok(126), "Height retrieval failed");
}

#[test]
fn test_get_two_values() {
    let latitude = 491000000; // 49.1 degrees
    let longitude = 82000000; // 8.2 degrees
    let reader = MemReader::new(vec![(
        "N49E008.hgt".to_string(),
        srtm3_file(&[(OFFSET_49_1_8_2, 126), (OFFSET_49_1_8_21, 116)]),
    )]);
    let mut tile = Tile::<MemReader>::new(Resolution::SRTM3, reader);
    let height = tile.get_height::<MemReader>(Coord::new(latitude, longitude));
    assert_eq!(height, Ok(126), "Height retrieval failed");
    let latitude = 491000000; // 49.1 degrees
    let longitude = 82100000; // 8.21 degrees
    let height = tile.get_height::<MemReader>(Coord::new(latitude, longitude));
    assert_eq!(height, Ok(116), "Height retrieval failed");
}

#[test]
fn test_tile_switch() {
    let latitude = 491000000; // 49.1 degrees
    let longitude = 82000000; // 8.2 degrees
    let reader = MemReader::new(vec![
        ("N49E008.hgt".to_string(), srtm3_file(&[(OFFSET_49_1_8_2, 126)])),
        ("N49E009.hgt".to_string(), srtm3_file(&[(OFFSET_49_1_8_2, 205)])),
    ]);
    let mut tile = Tile::<MemReader>::new(Resolution::SRTM3, reader);
    let height = tile.get_height::<MemReader>(Coord::new(latitude, longitude));
    assert_eq!(height, Ok(126), "Height retrieval failed");
    let latitude = 491000000; // 49.1 degrees
    let longitude = 92000000; // 9.2 degrees
    let height = tile.get_height::<MemReader>(Coord::new(latitude, longitude));
    assert_eq!(height, Ok(205), "Height retrieval failed");
}

#[test]
fn test_file_has_wrong_resolution() {
    let latitude = 491000000; // 49.1 degrees
    let longitude = 82000000; // 8.2 degrees
    let reader = MemReader::new(vec![(
        "N49E008.hgt".to_string(),
        srtm3_file(&[(OFFSET_49_1_8_2, 126)]),
    )]);
    let mut tile = Tile::<MemReader>::new(Resolution::SRTM05, reader);
    let height = tile.get_height::<MemReader>(Coord::new(latitude, longitude));
    assert_eq!(
        height,
        Err(Error::Filesize),
        "Height retrieval failed"
    );
}
