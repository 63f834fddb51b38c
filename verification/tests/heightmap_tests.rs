use noise::utils::{NoiseMapBuilder, PlaneMapBuilder};
use noise::{Fbm, Perlin};

use voxel_world::WorldError;
use voxel_world::heightmap::{HeightmapField, SAMPLE_ONE};

fn fixed_point(raw: f64) -> u32 {
    (((raw * 0.5) + 0.5).clamp(0.0, 1.0) * f64::from(SAMPLE_ONE)).round() as u32
}

fn noise_samples(seed: u32, size: usize) -> Vec<u32> {
    let fbm = Fbm::<Perlin>::new(seed);
    let map = PlaneMapBuilder::<_, 2>::new(&fbm).set_size(size, size).build();
    let mut samples = Vec::with_capacity(size * size);
    for x in 0..size {
        for z in 0..size {
            samples.push(fixed_point(map.get_value(x, z)));
        }
    }
    samples
}

#[test]
fn from_samples_accepts_matching_grid() {
    let field = HeightmapField::from_samples(3, vec![0u32; 9]).unwrap();
    assert_eq!(field.size, 3);
    assert_eq!(field.samples.len(), 9);
}

#[test]
fn from_samples_rejects_zero_size() {
    let r = HeightmapField::from_samples(0, Vec::new());
    assert_eq!(r.unwrap_err(), WorldError::ConfigurationError);
}

#[test]
fn from_samples_rejects_wrong_sample_count() {
    let r = HeightmapField::from_samples(3, vec![0u32; 8]);
    assert_eq!(r.unwrap_err(), WorldError::ConfigurationError);
}

#[test]
fn from_samples_clamps_out_of_range_values() {
    let field = HeightmapField::from_samples(2, vec![0, 70000, SAMPLE_ONE, 123]).unwrap();
    assert_eq!(field.samples, vec![0, SAMPLE_ONE, SAMPLE_ONE, 123]);
    for &s in &field.samples {
        assert!(s <= SAMPLE_ONE);
    }
}

#[test]
fn sample_reads_row_major() {
    let field = HeightmapField::from_samples(2, vec![10, 20, 30, 40]).unwrap();
    assert_eq!(field.sample(0, 0), 10);
    assert_eq!(field.sample(0, 1), 20);
    assert_eq!(field.sample(1, 0), 30);
    assert_eq!(field.sample(1, 1), 40);
}

#[test]
fn to_rgba_writes_grayscale_pixels() {
    let field = HeightmapField::from_samples(2, vec![0, 32768, SAMPLE_ONE, 16384]).unwrap();
    let rgba = field.to_rgba();
    assert_eq!(rgba.len(), 16);
    // 32768 * 255 / 65536 = 127 (truncated), 65536 -> 255, 16384 -> 63.
    let expected = [0u8, 127, 255, 63];
    for (i, &gray) in expected.iter().enumerate() {
        assert_eq!(rgba[4 * i], gray);
        assert_eq!(rgba[4 * i + 1], gray);
        assert_eq!(rgba[4 * i + 2], gray);
        assert_eq!(rgba[4 * i + 3], 255);
    }
}

#[test]
fn generation_is_deterministic_for_fixed_seed_and_size() {
    let a = noise_samples(999, 32);
    let b = noise_samples(999, 32);
    assert_eq!(a, b);
    let fa = HeightmapField::from_samples(32, a).unwrap();
    let fb = HeightmapField::from_samples(32, b).unwrap();
    assert_eq!(fa.size, fb.size);
    assert_eq!(fa.samples, fb.samples);
    assert_eq!(fa.to_rgba(), fb.to_rgba());
}

#[test]
fn every_generated_sample_is_normalized() {
    let samples = noise_samples(999, 32);
    let field = HeightmapField::from_samples(32, samples).unwrap();
    for &s in &field.samples {
        assert!(s <= SAMPLE_ONE);
    }
}
