use rand::distributions::{Distribution, Standard, Uniform};
use rand::rngs::SmallRng;
use rand::{Rng, SeedableRng};
use zoog::opus::CommentHeader;
use zoog::Error;

const MAX_STRING_LENGTH: usize = 1024;
const MAX_COMMENTS: usize = 128;
const NUM_IDENTITY_TESTS: usize = 256;

fn random_string<R: Rng>(engine: &mut R, is_key: bool) -> String {
    let min_len = if is_key { 1 } else { 0 };
    let len_distr = Uniform::new_inclusive(min_len, MAX_STRING_LENGTH);
    let len = engine.sample(len_distr);
    let mut result = String::new();
    result.reserve(len);
    if is_key {
        let valid_chars: Vec<char> = (' '..='<').chain('>'..='}').collect();
        let char_index_dist = Uniform::new(0, valid_chars.len());
        for _ in 0..len {
            result.push(valid_chars[engine.sample(char_index_dist)]);
        }
    } else {
        for c in engine.sample_iter(&Standard).take(len) {
            result.push(c);
        }
    }
    result
}

fn create_random_header<R: Rng>(engine: &mut R) -> CommentHeader {
    let mut header = CommentHeader::empty();
    header.set_vendor(&random_string(engine, false));
    let num_comments_dist = Uniform::new_inclusive(0, MAX_COMMENTS);
    let num_comments = engine.sample(&num_comments_dist);
    for _ in 0..num_comments {
        let key = random_string(engine, true);
        let value = random_string(engine, false);
        header.comments_mut().push(key.as_str(), value.as_str()).expect("Unable to add comment");
    }
    header
}

#[test]
fn parse_and_encode_is_identity() {
    let mut rng = SmallRng::seed_from_u64(19489);
    for _ in 0..NUM_IDENTITY_TESTS {
        let header_data_original = {
            let header = create_random_header(&mut rng);
            header.into_vec().expect("Failed to encode comment header")
        };
        let header_data = {
            let header =
                CommentHeader::try_parse(&header_data_original).expect("Previously generated header was not recognised");
            header.into_vec().expect("Failed to encode comment header")
        };
        assert_eq!(header_data_original, header_data);
    }
}

#[test]
fn padding_is_discarded() -> Result<(), Error> {
    let mut rng = SmallRng::seed_from_u64(57128);
    let header = create_random_header(&mut rng);
    let original_data = header.into_vec()?;
    let padding_size = 1024;
    let padded_data: Vec<u8> =
        original_data.iter().copied().chain(std::iter::repeat(0xFE).take(padding_size)).collect();
    assert!(original_data.len() < padded_data.len());
    let processed_data = {
        let header = CommentHeader::try_parse(&padded_data)?;
        header.into_vec()?
    };
    assert_eq!(original_data, processed_data);
    Ok(())
}

#[test]
fn experimental_data_is_preserved() -> Result<(), Error> {
    let mut rng = SmallRng::seed_from_u64(73295);
    let header = create_random_header(&mut rng);
    let original_data = header.into_vec()?;
    let experimental_data_size = 1024;
    let experimental_data_dist = Uniform::new_inclusive(0u8, 0xFFu8);
    let padded_data: Vec<u8> = original_data
        .iter()
        .copied()
        .chain(std::iter::once(0x1))
        .chain(experimental_data_dist.sample_iter(&mut rng).take(experimental_data_size))
        .collect();
    assert!(original_data.len() < padded_data.len());
    let processed_data = {
        let header = CommentHeader::try_parse(&padded_data)?;
        header.into_vec()?
    };
    assert_eq!(padded_data, processed_data);
    Ok(())
}
