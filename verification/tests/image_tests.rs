use image::bits_per_pixel;
use image::into_frames;
use image::is_animated;
use image::load_rect;
use image::pixels;
use image::pixels_mut;
use image::ColorType;
use image::DecodingBuffer;
use image::DecodingResult;
use image::GenericImage;
use image::ImageBuffer;
use image::ImageDecoder;
use image::ImageError;
use image::ImageFormat;
use image::MemoryDecoder;
use image::Rgba;
use image::SubImage;

/// Test that alpha blending works as expected.
#[test]
fn test_image_alpha_blending() {
    let mut target: ImageBuffer<Rgba> = ImageBuffer::new(1, 1);
    target.put_pixel(0, 0, Rgba(255u8, 0, 0, 255));
    assert!(target.get_pixel(0, 0) == Rgba(255, 0, 0, 255));
    target.blend_pixel(0, 0, Rgba(0, 255, 0, 255));
    assert!(target.get_pixel(0, 0) == Rgba(0, 255, 0, 255));

    // Blending an alpha channel onto a solid background
    target.blend_pixel(0, 0, Rgba(255, 0, 0, 127));
    assert!(target.get_pixel(0, 0) == Rgba(127, 127, 0, 255));

    // Blending two alpha channels
    target.put_pixel(0, 0, Rgba(0, 255, 0, 127));
    target.blend_pixel(0, 0, Rgba(255, 0, 0, 127));
    assert!(target.get_pixel(0, 0) == Rgba(169, 85, 0, 190));
}

#[test]
fn blending_transparent_source_keeps_destination() {
    let mut target: ImageBuffer<Rgba> = ImageBuffer::new(1, 1);
    target.put_pixel(0, 0, Rgba(12, 34, 56, 78));
    target.blend_pixel(0, 0, Rgba(200, 100, 50, 0));
    assert_eq!(target.get_pixel(0, 0), Rgba(12, 34, 56, 78));
}

#[test]
fn blending_opaque_source_overwrites_destination() {
    let mut target: ImageBuffer<Rgba> = ImageBuffer::new(1, 1);
    target.put_pixel(0, 0, Rgba(12, 34, 56, 78));
    target.blend_pixel(0, 0, Rgba(200, 100, 50, 255));
    assert_eq!(target.get_pixel(0, 0), Rgba(200, 100, 50, 255));
}

#[test]
fn bits_per_pixel_by_color_type() {
    assert_eq!(bits_per_pixel(ColorType::Gray(8)), 8);
    assert_eq!(bits_per_pixel(ColorType::RGB(8)), 24);
    assert_eq!(bits_per_pixel(ColorType::Palette(4)), 12);
    assert_eq!(bits_per_pixel(ColorType::GrayA(16)), 32);
    assert_eq!(bits_per_pixel(ColorType::RGBA(8)), 32);
}

fn sample_decoder() -> MemoryDecoder {
    // 2 pixels wide, 3 rows, RGBA with 8-bit samples, 8 bytes per row.
    let data: Vec<u8> = (0u8..24).collect();
    MemoryDecoder::new(2, 3, ColorType::RGBA(8), 8, data)
}

#[test]
fn read_scanline_counts_rows_then_ends() {
    let mut d = sample_decoder();
    let mut buf = vec![0u8; 8];
    assert_eq!(d.read_scanline(&mut buf), Ok(1));
    assert_eq!(buf, (0u8..8).collect::<Vec<u8>>());
    assert_eq!(d.read_scanline(&mut buf), Ok(2));
    assert_eq!(buf, (8u8..16).collect::<Vec<u8>>());
    assert_eq!(d.read_scanline(&mut buf), Ok(3));
    assert_eq!(buf, (16u8..24).collect::<Vec<u8>>());
    assert_eq!(d.read_scanline(&mut buf), Err(ImageError::ImageEnd));
    assert_eq!(d.read_scanline(&mut buf), Err(ImageError::ImageEnd));
}

#[test]
fn load_rect_returns_window_bytes() {
    let mut d = sample_decoder();
    // One pixel wide, two rows tall, starting at (1, 1): bytes 4..8 of
    // rows 1 and 2.
    let out = load_rect(&mut d, 1, 1, 2, 1).unwrap();
    assert_eq!(out, vec![12, 13, 14, 15, 20, 21, 22, 23]);
    assert_eq!(out.len(), 2 * 1 * 4);
}

#[test]
fn load_rect_whole_image() {
    let mut d = sample_decoder();
    let out = load_rect(&mut d, 0, 0, 3, 2).unwrap();
    assert_eq!(out, (0u8..24).collect::<Vec<u8>>());
}

#[test]
fn load_rect_rejects_out_of_bounds_rectangles() {
    let mut d = sample_decoder();
    assert_eq!(load_rect(&mut d, 1, 0, 3, 2), Err(ImageError::DimensionError));
    let mut d = sample_decoder();
    assert_eq!(load_rect(&mut d, 0, 2, 2, 2), Err(ImageError::DimensionError));
}

#[test]
fn load_rect_fails_once_past_the_window() {
    let mut d = sample_decoder();
    let mut buf = vec![0u8; 8];
    d.read_scanline(&mut buf).unwrap();
    d.read_scanline(&mut buf).unwrap();
    // The decoder has been read past row 0, so the window cannot start
    // there any more; the skip loop runs off the end of the image.
    assert_eq!(load_rect(&mut d, 0, 0, 1, 1), Err(ImageError::ImageEnd));
}

#[test]
fn read_image_returns_all_bytes() {
    let mut d = sample_decoder();
    match d.read_image() {
        Ok(DecodingResult::U8(v)) => assert_eq!(v, (0u8..24).collect::<Vec<u8>>()),
        _ => panic!("expected bytes"),
    }
}

#[test]
fn is_animated_defaults_to_false() {
    let mut d = sample_decoder();
    assert_eq!(is_animated(&mut d), Ok(false));
}

#[test]
fn into_frames_wraps_single_frame() {
    let d = MemoryDecoder::new(2, 1, ColorType::RGBA(8), 8, vec![10, 20, 30, 40, 50, 60, 70, 80]);
    let frames = into_frames(d).unwrap();
    assert_eq!(frames.num_frames(), 1);
    let frame = frames.into_vec().pop().unwrap();
    let buffer = frame.into_buffer();
    assert_eq!(buffer.dimensions(), (2, 1));
    assert_eq!(buffer.get_pixel(0, 0), Rgba(10, 20, 30, 40));
    assert_eq!(buffer.get_pixel(1, 0), Rgba(50, 60, 70, 80));
}

#[test]
fn into_frames_rejects_other_color_types() {
    let d = MemoryDecoder::new(2, 1, ColorType::RGB(8), 6, vec![0; 6]);
    match into_frames(d) {
        Err(ImageError::UnsupportedColor(ColorType::RGB(8))) => (),
        _ => panic!("expected an unsupported color type"),
    }
}

fn numbered_image(width: u32, height: u32) -> ImageBuffer<Rgba> {
    let mut img: ImageBuffer<Rgba> = ImageBuffer::new(width, height);
    for y in 0..height {
        for x in 0..width {
            img.put_pixel(x, y, Rgba(x as u8, y as u8, 0, 255));
        }
    }
    img
}

#[test]
fn pixels_traverses_row_major() {
    let img = numbered_image(2, 2);
    let mut it = pixels(&img);
    assert_eq!(it.next(), Some((0, 0, Rgba(0, 0, 0, 255))));
    assert_eq!(it.next(), Some((1, 0, Rgba(1, 0, 0, 255))));
    assert_eq!(it.next(), Some((0, 1, Rgba(0, 1, 0, 255))));
    assert_eq!(it.next(), Some((1, 1, Rgba(1, 1, 0, 255))));
    assert_eq!(it.next(), None);
    assert_eq!(it.next(), None);
}

#[test]
fn pixels_counts_width_times_height() {
    let img = numbered_image(5, 3);
    let mut it = pixels(&img);
    let mut seen: Vec<(u32, u32)> = Vec::new();
    while let Some((x, y, _)) = it.next() {
        seen.push((x, y));
    }
    assert_eq!(seen.len(), 15);
    for y in 0..3 {
        for x in 0..5 {
            assert_eq!(seen[(y * 5 + x) as usize], (x, y));
        }
    }
}

#[test]
fn pixels_of_empty_image_yields_nothing() {
    let img: ImageBuffer<Rgba> = ImageBuffer::new(0, 4);
    let mut it = pixels(&img);
    assert_eq!(it.next(), None);
    let img: ImageBuffer<Rgba> = ImageBuffer::new(4, 0);
    let mut it = pixels(&img);
    assert_eq!(it.next(), None);
}

#[test]
fn pixels_mut_yields_coordinates_for_mutation() {
    let mut img = numbered_image(3, 2);
    let mut it = pixels_mut(&img);
    while let Some((x, y)) = it.next() {
        img.put_pixel(x, y, Rgba(255 - x as u8, y as u8, 9, 255));
    }
    assert_eq!(img.get_pixel(0, 0), Rgba(255, 0, 9, 255));
    assert_eq!(img.get_pixel(2, 1), Rgba(253, 1, 9, 255));
}

#[test]
fn subimage_translates_coordinates() {
    let img = numbered_image(4, 4);
    let sub = SubImage::new(img, 1, 2, 2, 2);
    assert_eq!(sub.dimensions(), (2, 2));
    assert_eq!(sub.bounds(), (1, 2, 2, 2));
    for j in 0..2 {
        for i in 0..2 {
            assert_eq!(sub.get_pixel(i, j), Rgba((i + 1) as u8, (j + 2) as u8, 0, 255));
        }
    }
}

#[test]
fn subimage_writes_through_to_the_wrapped_image() {
    let img = numbered_image(4, 4);
    let mut sub = SubImage::new(img, 1, 1, 2, 2);
    sub.put_pixel(0, 0, Rgba(77, 77, 77, 255));
    sub.blend_pixel(1, 1, Rgba(1, 2, 3, 0));
    let img = sub.into_inner();
    assert_eq!(img.get_pixel(1, 1), Rgba(77, 77, 77, 255));
    assert_eq!(img.get_pixel(2, 2), Rgba(2, 2, 0, 255));
    assert_eq!(img.get_pixel(0, 0), Rgba(0, 0, 0, 255));
}

#[test]
fn subimage_change_bounds_repoints_the_window() {
    let img = numbered_image(4, 4);
    let mut sub = SubImage::new(img, 0, 0, 2, 2);
    sub.change_bounds(2, 2, 1, 2);
    assert_eq!(sub.bounds(), (2, 2, 1, 2));
    assert_eq!(sub.get_pixel(0, 1), Rgba(2, 3, 0, 255));
}

#[test]
fn subimage_inner_mut_reaches_the_wrapped_image() {
    let img = numbered_image(2, 2);
    let mut sub = SubImage::new(img, 0, 0, 1, 1);
    sub.inner_mut().put_pixel(1, 1, Rgba(5, 5, 5, 5));
    let img = sub.into_inner();
    assert_eq!(img.get_pixel(1, 1), Rgba(5, 5, 5, 5));
}

#[test]
fn subimage_to_image_copies_the_window() {
    let img = numbered_image(4, 3);
    let sub = SubImage::new(img, 1, 0, 2, 3);
    let copy = sub.to_image();
    assert_eq!(copy.dimensions(), (2, 3));
    for y in 0..3 {
        for x in 0..2 {
            assert_eq!(copy.get_pixel(x, y), Rgba((x + 1) as u8, y as u8, 0, 255));
        }
    }
}

#[test]
fn get_pixel_mut_writes_in_place() {
    let mut img = numbered_image(2, 2);
    *img.get_pixel_mut(1, 0) = Rgba(9, 9, 9, 9);
    assert_eq!(img.get_pixel(1, 0), Rgba(9, 9, 9, 9));
    assert_eq!(img.get_pixel(0, 0), Rgba(0, 0, 0, 255));
}

#[test]
fn decoding_buffer_tags_sample_width() {
    let b = DecodingBuffer::U8(vec![1, 2, 3]);
    match b {
        DecodingBuffer::U8(v) => assert_eq!(v.len(), 3),
        DecodingBuffer::U16(_) => panic!("expected bytes"),
    }
    let b = DecodingBuffer::U16(vec![1, 2]);
    match b {
        DecodingBuffer::U16(v) => assert_eq!(v.len(), 2),
        DecodingBuffer::U8(_) => panic!("expected words"),
    }
}

#[test]
fn image_format_is_a_selection_key() {
    assert_eq!(ImageFormat::PNG, ImageFormat::PNG);
    assert_ne!(ImageFormat::JPEG, ImageFormat::GIF);
}

#[test]
fn from_error_wraps_source_failures() {
    let e = ImageError::from_error("broken pipe".to_string());
    assert_eq!(e, ImageError::IoError("broken pipe".to_string()));
}
