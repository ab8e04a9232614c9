use ai_vk::device::{find_memory_type, select_compute_queue, QueueFamily};
use ai_vk::format::{Channel, TexelPart};
use ai_vk::names::{compare_names, same_name, NameOrder};
use ai_vk::requests::{
    bindless_image_request, cleared_image_request, rgba8_byte_count, sdf_downsample_request,
    RenderRequestError,
};
use ai_vk::schedule::{
    access_flags, barrier_source_stage, buffer_binding_barrier, image_binding_barrier,
    image_byte_count, readback_buffer_barrier, readback_image_barrier, source_stage,
    upload_buffer_barrier, upload_image_barrier, AccessMask, BindlessSlots, ImageLayout,
    ImageState, StageMask,
};
use ai_vk::shader::{compile_kernel, compile_request, kernel_words, spirv_words};
use ai_vk::text::{is_png_path, push_decimal, same_ignoring_ascii_case};
use ai_vk::{parse_arguments, AccessType, GraphError, ImageFormat, PhysicalDeviceInfo};

fn no_access() -> AccessMask {
    AccessMask {
        shader_read: false,
        shader_write: false,
        transfer_read: false,
        transfer_write: false,
    }
}

#[test]
fn byte_formats_read_back_as_rgba() {
    let r8 = ImageFormat::R8Unorm.output_channels(&[7, 9]).unwrap();
    assert_eq!(
        r8,
        vec![
            Channel::Byte(7),
            Channel::Byte(0),
            Channel::Byte(0),
            Channel::Byte(255),
            Channel::Byte(9),
            Channel::Byte(0),
            Channel::Byte(0),
            Channel::Byte(255),
        ]
    );
    let rg8 = ImageFormat::R8G8Unorm.output_channels(&[5, 6]).unwrap();
    assert_eq!(
        rg8,
        vec![Channel::Byte(5), Channel::Byte(6), Channel::Byte(0), Channel::Byte(255)]
    );
    let bgra = ImageFormat::B8G8R8A8Unorm.output_channels(&[1, 2, 3, 4]).unwrap();
    assert_eq!(
        bgra,
        vec![Channel::Byte(3), Channel::Byte(2), Channel::Byte(1), Channel::Byte(4)]
    );
    let rgba = ImageFormat::R8G8B8A8Unorm.output_channels(&[12, 98, 201, 255]).unwrap();
    assert_eq!(
        rgba,
        vec![Channel::Byte(12), Channel::Byte(98), Channel::Byte(201), Channel::Byte(255)]
    );
}

#[test]
fn float_formats_read_back_little_endian_words() {
    let mut data = Vec::new();
    data.extend_from_slice(&1.0f32.to_le_bytes());
    data.extend_from_slice(&0.5f32.to_le_bytes());
    let channels = ImageFormat::R32G32Sfloat.output_channels(&data).unwrap();
    assert_eq!(
        channels,
        vec![
            Channel::FloatBits(1.0f32.to_bits()),
            Channel::FloatBits(0.5f32.to_bits()),
            Channel::Byte(0),
            Channel::Byte(255),
        ]
    );
    assert_eq!(1.0f32.to_bits(), 0x3f80_0000);
}

#[test]
fn unaligned_image_data_is_rejected() {
    let error = ImageFormat::R8G8Unorm.output_channels(&[1, 2, 3]).unwrap_err();
    assert!(matches!(
        error,
        GraphError::UnalignedImageData {
            format: ImageFormat::R8G8Unorm,
            length: 3
        }
    ));
    assert_eq!(
        error.message(),
        "image data length 3 is not aligned to the `R8G8Unorm` pixel size"
    );
    assert!(ImageFormat::R32Sfloat.output_channels(&[0, 0]).is_err());
    assert_eq!(ImageFormat::R8Unorm.output_channels(&[]).unwrap(), vec![]);
}

#[test]
fn uploads_keep_the_format_channels_in_format_order() {
    let pixels = [10, 20, 30, 40, 50, 60, 70, 80, 99];
    assert_eq!(
        ImageFormat::R8Unorm.input_parts(&pixels),
        vec![TexelPart::Byte(10), TexelPart::Byte(50)]
    );
    assert_eq!(
        ImageFormat::R8G8Unorm.input_parts(&pixels[..4]),
        vec![TexelPart::Byte(10), TexelPart::Byte(20)]
    );
    assert_eq!(
        ImageFormat::B8G8R8A8Unorm.input_parts(&pixels[..4]),
        vec![
            TexelPart::Byte(30),
            TexelPart::Byte(20),
            TexelPart::Byte(10),
            TexelPart::Byte(40)
        ]
    );
    assert_eq!(
        ImageFormat::R32G32B32A32Sfloat.input_parts(&pixels[..4]),
        vec![
            TexelPart::UnitFloat(10),
            TexelPart::UnitFloat(20),
            TexelPart::UnitFloat(30),
            TexelPart::UnitFloat(40)
        ]
    );
    assert_eq!(
        ImageFormat::R32Sfloat.input_parts(&pixels[..4]),
        vec![TexelPart::UnitFloat(10)]
    );
}

#[test]
fn byte_uploads_read_back_to_their_stored_channels() {
    let pixels = [10, 20, 30, 40, 1, 2, 3, 4];
    for format in [
        ImageFormat::R8Unorm,
        ImageFormat::R8G8Unorm,
        ImageFormat::R8G8B8A8Unorm,
        ImageFormat::B8G8R8A8Unorm,
    ] {
        let bytes: Vec<u8> = format
            .input_parts(&pixels)
            .into_iter()
            .map(|part| match part {
                TexelPart::Byte(b) => b,
                TexelPart::UnitFloat(b) => b,
            })
            .collect();
        let channels = format.output_channels(&bytes).unwrap();
        assert_eq!(channels.len(), pixels.len());
        for p in 0..2 {
            for j in 0..4 {
                let expected = if j < format.channel_count() {
                    pixels[4 * p + j]
                } else if j == 3 {
                    255
                } else {
                    0
                };
                assert_eq!(channels[4 * p + j], Channel::Byte(expected));
            }
        }
    }
}

#[test]
fn pixel_sizes_and_channel_counts() {
    assert_eq!(ImageFormat::R8Unorm.pixel_size(), 1);
    assert_eq!(ImageFormat::R8G8Unorm.pixel_size(), 2);
    assert_eq!(ImageFormat::B8G8R8A8Unorm.pixel_size(), 4);
    assert_eq!(ImageFormat::R32G32Sfloat.pixel_size(), 8);
    assert_eq!(ImageFormat::R32G32B32A32Sfloat.pixel_size(), 16);
    assert_eq!(ImageFormat::R32G32Sfloat.channel_count(), 2);
    assert_eq!(image_byte_count(4, 4, ImageFormat::R32G32B32A32Sfloat), Some(256));
    assert_eq!(image_byte_count(3, 5, ImageFormat::R8Unorm), Some(15));
    assert_eq!(
        image_byte_count(u32::MAX, u32::MAX, ImageFormat::R32G32B32A32Sfloat),
        None
    );
}

#[test]
fn argument_overrides_parse_in_order() {
    let raw = vec!["width=4".to_string(), "label=a=b".to_string(), "empty=".to_string()];
    let parsed = parse_arguments(&raw).unwrap();
    assert_eq!(parsed.len(), 3);
    assert_eq!(parsed.get("width").map(String::as_str), Some("4"));
    assert_eq!(parsed.get("label").map(String::as_str), Some("a=b"));
    assert_eq!(parsed.get("empty").map(String::as_str), Some(""));
    assert!(parse_arguments(&Vec::new()).unwrap().len() == 0);
}

#[test]
fn malformed_argument_overrides_are_rejected() {
    assert_eq!(
        parse_arguments(&vec!["width".to_string()]).unwrap_err(),
        "graph argument `width` must use NAME=VALUE syntax"
    );
    assert_eq!(
        parse_arguments(&vec!["=4".to_string()]).unwrap_err(),
        "graph argument names must not be empty"
    );
    assert_eq!(
        parse_arguments(&vec!["width=4".to_string(), "width=5".to_string()]).unwrap_err(),
        "graph argument `width` was specified more than once"
    );
    assert_eq!(
        parse_arguments(&vec!["bad".to_string(), "=4".to_string()]).unwrap_err(),
        "graph argument `bad` must use NAME=VALUE syntax"
    );
}

#[test]
fn memory_types_prefer_the_first_with_preferred_flags() {
    let types = vec![0b0001, 0b0111, 0b0110, 0b0110];
    assert_eq!(find_memory_type(&types, 0b1111, 0b0010, 0b0100), Some((1, 0b0111)));
    assert_eq!(find_memory_type(&types, 0b1101, 0b0010, 0b0100), Some((2, 0b0110)));
    assert_eq!(find_memory_type(&types, 0b1111, 0b0010, 0b1000), Some((3, 0b0110)));
    assert_eq!(find_memory_type(&types, 0b0001, 0b0010, 0b0000), None);
    assert_eq!(find_memory_type(&Vec::new(), u32::MAX, 0, 0), None);
}

fn family(queue_count: u32, compute: bool, graphics: bool) -> QueueFamily {
    QueueFamily {
        queue_count,
        compute,
        graphics,
    }
}

#[test]
fn compute_queues_prefer_dedicated_families() {
    let devices = vec![
        vec![family(1, true, true)],
        vec![family(0, true, false), family(2, true, false)],
    ];
    assert_eq!(select_compute_queue(&devices), Some((1, 1)));
    let shared = vec![vec![family(1, false, true), family(1, true, true)]];
    assert_eq!(select_compute_queue(&shared), Some((0, 1)));
    let none = vec![vec![family(1, false, true)], vec![family(0, true, false)]];
    assert_eq!(select_compute_queue(&none), None);
    assert_eq!(select_compute_queue(&Vec::new()), None);
}

#[test]
fn device_reports_unpack_the_api_version() {
    let packed = (1u32 << 22) | (3u32 << 12) | 250;
    let info = PhysicalDeviceInfo::from_properties(
        "llvmpipe".to_string(),
        "CPU".to_string(),
        0x10005,
        0,
        packed,
        7,
        3,
    );
    assert_eq!(info.api_version, (1, 3, 250));
    assert_eq!(info.name, "llvmpipe");
    assert_eq!(info.device_type, "CPU");
    assert_eq!(info.vendor_id, 0x10005);
    assert_eq!(info.driver_version, 7);
    assert_eq!(info.queue_family_count, 3);
}

#[test]
fn render_requests_check_dimensions_and_sizes() {
    assert_eq!(rgba8_byte_count(2, 3), Ok(24));
    assert_eq!(rgba8_byte_count(65536, 65536), Err(RenderRequestError::DimensionsOverflow));
    assert_eq!(rgba8_byte_count(65536, 16384), Err(RenderRequestError::SizeOverflow));
    assert_eq!(cleared_image_request(64, 64), Ok(16384));
    assert_eq!(cleared_image_request(0, 64), Err(RenderRequestError::ZeroDimensions));
    assert_eq!(bindless_image_request(4, 4, 12), Ok(64));
    assert_eq!(bindless_image_request(4, 4, 10), Err(RenderRequestError::UnalignedSpirv));
    assert_eq!(bindless_image_request(4, 0, 10), Err(RenderRequestError::ZeroDimensions));
    assert_eq!(sdf_downsample_request(8, 6, 4, 8), Ok((4, 3, 48)));
    assert_eq!(sdf_downsample_request(3, 4, 4, 4), Err(RenderRequestError::OddSdfDimensions));
    assert_eq!(sdf_downsample_request(0, 0, 4, 4), Err(RenderRequestError::OddSdfDimensions));
    assert_eq!(sdf_downsample_request(8, 8, 4, 6), Err(RenderRequestError::UnalignedSpirv));
    assert_eq!(
        RenderRequestError::ZeroDimensions.message(),
        "image dimensions must be greater than zero"
    );
    assert_eq!(RenderRequestError::SizeOverflow.message(), "image size overflow");
}

#[test]
fn compiled_shaders_split_into_little_endian_words() {
    let shader = "kernel.hlsl".to_string();
    let words = spirv_words(&shader, &[0x03, 0x02, 0x23, 0x07, 1, 0, 0, 0]).unwrap();
    assert_eq!(words, vec![0x0723_0203, 1]);
    let error = spirv_words(&shader, &[1, 2, 3, 4, 5]).unwrap_err();
    assert!(matches!(&error, GraphError::InvalidSpirv { shader } if shader == "kernel.hlsl"));
    assert_eq!(
        error.message(),
        "shader compilation error: shader `kernel.hlsl` produced invalid SPIR-V"
    );
}

#[test]
fn image_bindings_plan_layout_transitions() {
    let mut state = ImageState {
        layout: ImageLayout::Undefined,
        access: no_access(),
    };
    let first = image_binding_barrier(&mut state, AccessType::Read).unwrap();
    assert_eq!(first.old_layout, ImageLayout::Undefined);
    assert_eq!(first.new_layout, ImageLayout::ShaderReadOnlyOptimal);
    assert_eq!(first.src_access, no_access());
    assert_eq!(first.dst_access, access_flags(AccessType::Read));
    assert_eq!(state.layout, ImageLayout::ShaderReadOnlyOptimal);

    let write = image_binding_barrier(&mut state, AccessType::ReadWrite).unwrap();
    assert_eq!(write.old_layout, ImageLayout::ShaderReadOnlyOptimal);
    assert_eq!(write.new_layout, ImageLayout::General);
    assert!(write.src_access.shader_read && !write.src_access.shader_write);
    assert!(write.dst_access.shader_read && write.dst_access.shader_write);

    let readback = readback_image_barrier(&mut state);
    assert_eq!(readback.old_layout, ImageLayout::General);
    assert_eq!(readback.new_layout, ImageLayout::TransferSrcOptimal);
    assert!(readback.dst_access.transfer_read);
    assert_eq!(state.layout, ImageLayout::TransferSrcOptimal);

    let mut clean = ImageState {
        layout: ImageLayout::ShaderReadOnlyOptimal,
        access: no_access(),
    };
    assert_eq!(image_binding_barrier(&mut clean, AccessType::Read), None);
}

#[test]
fn buffer_bindings_and_upload_barriers() {
    let mut state = no_access();
    assert_eq!(buffer_binding_barrier(&mut state, AccessType::Read), None);
    assert_eq!(state, access_flags(AccessType::Read));
    let barrier = buffer_binding_barrier(&mut state, AccessType::Write).unwrap();
    assert_eq!(barrier.src_access, access_flags(AccessType::Read));
    assert_eq!(barrier.dst_access, access_flags(AccessType::Write));
    assert!(buffer_binding_barrier(&mut state, AccessType::Read).is_some());

    let (upload, uploaded) = upload_image_barrier();
    assert_eq!(upload.old_layout, ImageLayout::Undefined);
    assert_eq!(upload.new_layout, ImageLayout::TransferDstOptimal);
    assert!(upload.dst_access.transfer_write);
    assert_eq!(uploaded.layout, ImageLayout::TransferDstOptimal);
}

#[test]
fn barriers_wait_on_the_stages_that_produced_the_accesses() {
    assert_eq!(
        source_stage(no_access()),
        StageMask {
            top_of_pipe: true,
            transfer: false,
            compute_shader: false
        }
    );
    let written = AccessMask {
        transfer_write: true,
        ..no_access()
    };
    assert_eq!(
        barrier_source_stage(&vec![written, access_flags(AccessType::Write)]),
        StageMask {
            top_of_pipe: false,
            transfer: true,
            compute_shader: true
        }
    );
    assert_eq!(
        barrier_source_stage(&Vec::new()),
        StageMask {
            top_of_pipe: false,
            transfer: false,
            compute_shader: false
        }
    );
}

#[test]
fn names_and_paths() {
    assert!(matches!(compare_names("input", "output"), NameOrder::Less));
    assert!(matches!(compare_names("b", "ab"), NameOrder::Greater));
    assert!(matches!(compare_names("same", "same"), NameOrder::Equal));
    assert!(same_name("source", "source"));
    assert!(!same_name("source", "sources"));
    assert!(same_ignoring_ascii_case("PnG", "png"));
    assert!(is_png_path("out/result.PNG"));
    assert!(!is_png_path("out/result.bin"));
    assert!(!is_png_path("png"));
    let mut text = "slot ".to_string();
    push_decimal(&mut text, 1234);
    assert_eq!(text, "slot 1234");
}

#[test]
fn compile_requests_name_the_kernel_profile_and_options() {
    let node = "blur".to_string();
    let path = "shaders/blur.hlsl".to_string();
    let request = compile_request(&node, &path, "void main() {}", "blur_x", "shaders").unwrap();
    assert_eq!(request.source_name, "shaders/blur.hlsl");
    assert_eq!(request.source, "void main() {}");
    assert_eq!(request.entry_point, "blur_x");
    assert_eq!(request.profile, "cs_6_0");
    assert_eq!(request.arguments, vec!["-spirv".to_string(), "-Ishaders".to_string()]);

    let bad_kernel = compile_request(&node, &path, "", "ma\0in", "shaders").unwrap_err();
    assert_eq!(bad_kernel.message(), "node `blur` has an invalid kernel name");
    let bad_dir = compile_request(&node, &path, "", "main", "sha\0ders").unwrap_err();
    assert!(matches!(bad_dir, GraphError::InvalidShaderPath { .. }));
    assert_eq!(
        bad_dir.message(),
        "shader path `shaders/blur.hlsl` or its header directory holds a NUL character"
    );
}

#[test]
fn compiler_runs_keep_their_request() {
    let node = "fill".to_string();
    let path = "runtime_compute.hlsl".to_string();
    let source = "RWStructuredBuffer<uint> output_buffer : register(u0);\n\
        [numthreads(1, 1, 1)]\n\
        void main(uint3 id : SV_DispatchThreadID) { output_buffer[id.x] = id.x; }";
    let run = compile_kernel(&node, &path, source, "main", ".").unwrap();
    assert_eq!(run.request().entry_point, "main");
    assert_eq!(run.request().profile, "cs_6_0");
    assert_eq!(run.request().arguments, vec!["-spirv".to_string(), "-I.".to_string()]);
    match kernel_words(&run) {
        Ok(words) => assert_eq!(words[0], 0x0723_0203),
        Err(error) => {
            assert!(matches!(error, GraphError::ShaderCompilation { .. }));
            assert!(error.message().starts_with("shader compilation error: "));
        }
    }
    assert!(compile_kernel(&node, &path, source, "ma\0in", ".").is_err());
}

#[test]
fn buffer_uploads_and_readbacks_plan_transfer_barriers() {
    let (upload, written) = upload_buffer_barrier();
    assert_eq!(upload.src_access, no_access());
    assert!(upload.dst_access.transfer_write && !upload.dst_access.transfer_read);
    assert_eq!(written, upload.dst_access);

    let mut state = access_flags(AccessType::Write);
    let readback = readback_buffer_barrier(&mut state);
    assert_eq!(readback.src_access, access_flags(AccessType::Write));
    assert!(readback.dst_access.transfer_read && !readback.dst_access.shader_read);
    assert_eq!(state, readback.dst_access);
}

#[test]
fn bindless_slots_are_claimed_lowest_first_until_full() {
    let mut slots = BindlessSlots::new();
    for expected in 0..64u32 {
        assert_eq!(slots.claim(), Some(expected));
    }
    assert_eq!(slots.claim(), None);
}
