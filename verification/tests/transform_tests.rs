use anime_gif_generator::pixel::{Channels, PixelBuffer};
use anime_gif_generator::transform::{resize_linear, transform};

fn buffer(width: u32, height: u32, channels: Channels, data: Vec<u8>) -> PixelBuffer {
    PixelBuffer { width, height, channels, data }
}

#[test]
fn output_payload_is_always_target_size() {
    let small = buffer(1, 1, Channels::Bgr, vec![9, 9, 9]);
    let wide = buffer(8, 2, Channels::Bgr, vec![5; 48]);
    for (src, w, h) in [(&small, 7u32, 3u32), (&wide, 2, 5), (&wide, 16, 1)] {
        let out = transform(src, w, h);
        assert_eq!(out.width, w);
        assert_eq!(out.height, h);
        assert_eq!(out.data.len(), (w * h * 3) as usize);
    }
}

#[test]
fn upscaling_a_single_pixel_replicates_it_reordered() {
    let src = buffer(1, 1, Channels::Bgr, vec![1, 2, 3]);
    let out = transform(&src, 2, 2);
    assert_eq!(out.channels, Channels::Rgb);
    assert_eq!(out.data, vec![3, 2, 1, 3, 2, 1, 3, 2, 1, 3, 2, 1]);
}

#[test]
fn transform_to_own_size_keeps_dimensions_and_only_reorders() {
    let src = buffer(2, 1, Channels::Bgr, vec![1, 2, 3, 10, 20, 30]);
    let out = transform(&src, 2, 1);
    assert_eq!(out.width, src.width);
    assert_eq!(out.height, src.height);
    assert_eq!(out.data, vec![3, 2, 1, 30, 20, 10]);
}

#[test]
fn transform_twice_at_own_size_restores_the_buffer() {
    let src = buffer(2, 2, Channels::Bgr, vec![0, 1, 2, 3, 4, 5, 6, 7, 8, 9, 10, 11]);
    let once = transform(&src, 2, 2);
    let twice = transform(&once, 2, 2);
    assert_eq!(twice.width, src.width);
    assert_eq!(twice.height, src.height);
    assert_eq!(twice.channels, Channels::Bgr);
    assert_eq!(twice.data, src.data);
}

#[test]
fn resampling_to_own_size_is_the_identity() {
    let data: Vec<u8> = (0u8..24).collect();
    let out = resize_linear(&data, 4, 2, 3, 4, 2);
    assert_eq!(out, data);
}

#[test]
fn downscale_midpoint_interpolates_linearly() {
    let data: Vec<u8> = vec![0, 100];
    let out = resize_linear(&data, 2, 1, 1, 1, 1);
    assert_eq!(out, vec![50]);
}
