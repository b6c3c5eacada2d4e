use dip_visualizer::gray_image::{
    load_gray_image_from_file_bytes, load_gray_image_from_memory, load_result, GrayImage,
};
use dip_visualizer::histogram::{empty_histogram, histogram};
use dip_visualizer::intensity_map::{map_intensities, map_intensities_inplace};
use dip_visualizer::loaded_image::{ImageLoadState, LoadedImage};
use dip_visualizer::negative::Negative;
use dip_visualizer::pipeline::{Pipeline, PipelineStep};

fn image(width: u32, height: u32, samples: Vec<u8>) -> GrayImage {
    GrayImage::from_raw(width, height, samples).expect("the buffer fits")
}

#[test]
fn from_raw_checks_the_buffer_size() {
    assert!(GrayImage::from_raw(2, 2, vec![1, 2, 3, 4]).is_some());
    assert!(GrayImage::from_raw(2, 2, vec![1, 2, 3, 4, 5]).is_some());
    assert!(GrayImage::from_raw(2, 2, vec![1, 2, 3]).is_none());
    assert!(GrayImage::from_raw(0, 7, vec![]).is_some());
    assert!(GrayImage::from_raw(u32::MAX, u32::MAX, vec![0]).is_none());
    let img = image(3, 1, vec![9, 8, 7]);
    assert_eq!(img.width(), 3);
    assert_eq!(img.height(), 1);
    assert_eq!(img.samples(), &[9, 8, 7]);
    assert_eq!(img.into_samples(), vec![9, 8, 7]);
}

#[test]
fn empty_histogram_is_all_zero() {
    let hist = empty_histogram();
    assert_eq!(hist.len(), 256);
    assert!(hist.iter().all(|&bin| bin == 0));
}

#[test]
fn histogram_counts_each_value() {
    let img = image(3, 2, vec![0, 5, 5, 255, 5, 0]);
    let hist = histogram(&img);
    assert_eq!(hist[0], 2);
    assert_eq!(hist[5], 3);
    assert_eq!(hist[255], 1);
    assert_eq!(hist[1], 0);
    assert_eq!(hist.iter().sum::<u64>(), 6);
}

#[test]
fn histogram_of_an_empty_image_is_empty() {
    let img = image(0, 0, vec![]);
    assert_eq!(histogram(&img), empty_histogram());
}

#[test]
fn negative_inverts_every_sample() {
    let mut img = image(2, 2, vec![0, 1, 128, 255]);
    img.negative_inplace();
    assert_eq!(img.samples(), &[255, 254, 127, 0]);
    assert_eq!((img.width(), img.height()), (2, 2));
}

#[test]
fn negative_twice_gives_the_image_back() {
    let samples: Vec<u8> = (0..=255).collect();
    let img = image(16, 16, samples.clone());
    let twice = img.negative().negative();
    assert_eq!(twice.samples(), samples.as_slice());
}

#[test]
fn negative_mirrors_the_histogram() {
    let img = image(4, 1, vec![3, 3, 10, 200]);
    let hist = histogram(&img);
    let neg = img.negative();
    let neg_hist = histogram(&neg);
    for v in 0..256 {
        assert_eq!(neg_hist[255 - v], hist[v]);
    }
}

#[test]
fn map_intensities_uses_the_table() {
    let mut table = [0u8; 256];
    for (v, entry) in table.iter_mut().enumerate() {
        *entry = (v as u8).wrapping_mul(2);
    }
    let mut img = image(3, 1, vec![1, 100, 200]);
    map_intensities_inplace(&mut img, &table);
    assert_eq!(img.samples(), &[2, 200, 144]);
}

#[test]
fn mapping_by_the_negative_table_is_the_negative() {
    let mut table = [0u8; 256];
    for (v, entry) in table.iter_mut().enumerate() {
        *entry = 255 - v as u8;
    }
    let samples = vec![0, 17, 99, 255];
    let mapped = map_intensities(image(2, 2, samples.clone()), &table);
    let negated = image(2, 2, samples).negative();
    assert_eq!(mapped.samples(), negated.samples());
}

fn encoded_png(width: u32, height: u32, samples: Vec<u8>) -> Vec<u8> {
    let img = image::GrayImage::from_raw(width, height, samples).expect("fits");
    let mut bytes = std::io::Cursor::new(Vec::new());
    img.write_to(&mut bytes, image::ImageFormat::Png).expect("encodes");
    bytes.into_inner()
}

#[test]
fn load_gray_image_decodes_a_png() {
    let bytes = encoded_png(2, 3, vec![10, 20, 30, 40, 50, 60]);
    let img = load_gray_image_from_memory(&bytes).expect("decodes");
    assert_eq!((img.width(), img.height()), (2, 3));
    assert_eq!(img.samples(), &[10, 20, 30, 40, 50, 60]);
}

#[test]
fn load_gray_image_reports_garbage() {
    let err = match load_gray_image_from_memory(&[1, 2, 3, 4]) {
        Ok(_) => panic!("garbage decoded"),
        Err(err) => err,
    };
    assert!(err.starts_with("Ошибка. Не удалось загрузить изображение: "));
    assert!(err.len() > "Ошибка. Не удалось загрузить изображение: ".len());
}

fn negate_if(negate: &bool, img: GrayImage) -> GrayImage {
    if *negate {
        img.negative()
    } else {
        img
    }
}

#[test]
fn pipeline_runs_only_the_active_steps() {
    let mut pipeline: Pipeline<bool> = Pipeline::new();
    let first = pipeline.add(true);
    pipeline.add(true);
    let img = image(2, 1, vec![0, 10]);
    // Two negatives cancel out.
    assert_eq!(pipeline.apply_to(img.clone(), negate_if).samples(), &[0, 10]);
    pipeline.deactivate(first);
    assert_eq!(pipeline.apply_to(img.clone(), negate_if).samples(), &[255, 245]);
    pipeline.add(false);
    assert_eq!(pipeline.apply_to(img, negate_if).samples(), &[255, 245]);
}

#[test]
fn loaded_image_keeps_the_histogram_of_the_transformed_image() {
    let mut pipeline: Pipeline<bool> = Pipeline::new();
    let id = pipeline.add(true);
    let original = image(2, 1, vec![0, 10]);
    let mut loaded = LoadedImage::from_original(original, &pipeline, negate_if);
    assert_eq!(loaded.original().samples(), &[0, 10]);
    assert_eq!(loaded.transformed().samples(), &[255, 245]);
    assert_eq!(loaded.histogram()[255], 1);
    assert_eq!(loaded.histogram()[0], 0);
    pipeline.toggle(id);
    loaded.retransform(&pipeline, negate_if);
    assert_eq!(loaded.original().samples(), &[0, 10]);
    assert_eq!(loaded.transformed().samples(), &[0, 10]);
    assert_eq!(loaded.histogram()[0], 1);
    assert_eq!(loaded.histogram()[255], 0);

    let state = ImageLoadState::Loaded(Box::new(loaded));
    assert_eq!(state.histogram().map(|h| h[10]), Some(1));
    assert!(ImageLoadState::Empty.histogram().is_none());
    assert!(ImageLoadState::Failed("no".to_string()).histogram().is_none());
}

#[test]
fn a_step_applies_its_transform_only_when_on() {
    let mut step = PipelineStep::from_parts(1, true, true);
    let img = image(3, 1, vec![0, 1, 255]);
    assert_eq!(step.apply_to(img.clone(), &negate_if).samples(), &[255, 254, 0]);
    step.deactivate();
    assert_eq!(step.apply_to(img, &negate_if).samples(), &[0, 1, 255]);
}

#[test]
fn a_switched_off_step_is_as_if_removed() {
    let img = image(2, 2, vec![0, 64, 128, 255]);
    let mut with_off_step: Pipeline<bool> = Pipeline::new();
    with_off_step.add(true);
    let off = with_off_step.add(true);
    with_off_step.add(true);
    with_off_step.deactivate(off);

    let mut without_step: Pipeline<bool> = Pipeline::new();
    without_step.add(true);
    without_step.add(true);

    let a = with_off_step.apply_to(img.clone(), negate_if);
    let b = without_step.apply_to(img.clone(), negate_if);
    assert_eq!(a.samples(), b.samples());
    assert_eq!(a.samples(), img.samples());

    with_off_step.remove(off);
    assert_eq!(with_off_step.apply_to(img.clone(), negate_if).samples(), b.samples());
}

#[test]
fn a_pipeline_of_switched_off_steps_keeps_the_image() {
    let img = image(2, 1, vec![3, 200]);
    let mut pipeline: Pipeline<bool> = Pipeline::new();
    let a = pipeline.add(true);
    let b = pipeline.add(true);
    let c = pipeline.add(true);
    pipeline.deactivate(a);
    pipeline.deactivate(b);
    pipeline.deactivate(c);
    let out = pipeline.apply_to(img, negate_if);
    assert_eq!(out.samples(), &[3, 200]);
    assert_eq!((out.width(), out.height()), (2, 1));
}

#[test]
fn mapping_twice_is_mapping_by_the_composition() {
    let mut first = [0u8; 256];
    let mut second = [0u8; 256];
    let mut both = [0u8; 256];
    for v in 0..256 {
        first[v] = (v as u8).wrapping_mul(3);
        second[v] = 255 - (v as u8) / 2;
    }
    for v in 0..256 {
        both[v] = second[first[v] as usize];
    }
    let img = image(4, 1, vec![0, 1, 100, 255]);
    let twice = map_intensities(map_intensities(img.clone(), &first), &second);
    let once = map_intensities(img, &both);
    assert_eq!(twice.samples(), once.samples());
    assert_eq!(twice.samples(), &[255, 254, 233, 129]);
}

#[test]
fn load_result_prefixes_the_decoders_message() {
    let img = image(1, 1, vec![9]);
    let kept = load_result(Ok(img)).expect("an image");
    assert_eq!(kept.samples(), &[9]);
    let err = match load_result(Err("bad header".to_string())) {
        Ok(_) => panic!("an error was expected"),
        Err(msg) => msg,
    };
    assert_eq!(err, "Ошибка. Не удалось загрузить изображение: bad header");
}

#[test]
fn file_bytes_are_decoded_in_the_format_of_the_extension() {
    let bytes = encoded_png(2, 1, vec![7, 250]);
    let img = load_gray_image_from_file_bytes("/pics/a.PNG", &bytes).expect("decodes as png");
    assert_eq!((img.width(), img.height()), (2, 1));
    assert_eq!(img.samples(), &[7, 250]);

    // The extension decides the format, not the content.
    assert!(load_gray_image_from_file_bytes("/pics/a.jpg", &bytes).is_err());
    let unknown = match load_gray_image_from_file_bytes("/pics/a.txt", &bytes) {
        Ok(_) => panic!("an unknown extension decoded"),
        Err(msg) => msg,
    };
    assert!(!unknown.starts_with("Ошибка"));
    assert!(unknown.contains("txt"));
    assert!(load_gray_image_from_file_bytes("/pics/noext", &bytes).is_err());
}
