use soundcloud2mp4::video::encoder::{
    compiled_in_encoders, first_query_names, parse_encoder_names, parse_gpu_lines, probe,
    refuse_without_test, short_reason, test_encode_args, test_encode_outcome, Availability,
    EncoderChoice, EncoderKind, EncoderSupport, QualityTier, ResolvedEncoder, Vendor,
};

#[test]
fn cpu_args_match_the_original_pipeline() {
    let e = ResolvedEncoder::cpu();
    assert_eq!(
        e.video_args(QualityTier::Clip).join(" "),
        "-c:v libx264 -preset medium -tune stillimage -crf 18 -pix_fmt yuv420p"
    );
    assert_eq!(
        e.video_args(QualityTier::Intermediate).join(" "),
        "-c:v libx264 -preset veryfast -crf 16 -pix_fmt yuv420p"
    );
    assert_eq!(
        e.video_args(QualityTier::Final).join(" "),
        "-c:v libx264 -preset medium -crf 18 -pix_fmt yuv420p"
    );
    // CPU never asks for hardware decode.
    assert!(e.decode_args().is_empty());
}

#[test]
fn gpu_args_use_the_right_codec_and_quality() {
    for (kind, codec) in [
        (EncoderKind::Nvenc, "h264_nvenc"),
        (EncoderKind::Qsv, "h264_qsv"),
        (EncoderKind::Amf, "h264_amf"),
    ] {
        let e = ResolvedEncoder { kind, hardware_decode: true };
        let final_args = e.video_args(QualityTier::Final).join(" ");
        assert!(final_args.contains(&format!("-c:v {codec}")), "{final_args}");
        assert!(final_args.ends_with("-pix_fmt yuv420p"), "{final_args}");
    }
    assert!(ResolvedEncoder { kind: EncoderKind::Nvenc, hardware_decode: false }
        .video_args(QualityTier::Final)
        .join(" ")
        .contains("-preset p5"));
    assert!(ResolvedEncoder { kind: EncoderKind::Qsv, hardware_decode: false }
        .video_args(QualityTier::Final)
        .join(" ")
        .contains("-global_quality 22"));
    assert!(ResolvedEncoder { kind: EncoderKind::Amf, hardware_decode: false }
        .video_args(QualityTier::Final)
        .join(" ")
        .contains("-quality quality"));
}

#[test]
fn decode_args_follow_encoder_and_toggle() {
    assert_eq!(
        ResolvedEncoder { kind: EncoderKind::Nvenc, hardware_decode: true }.decode_args(),
        vec!["-hwaccel".to_string(), "cuda".to_string()]
    );
    assert_eq!(
        ResolvedEncoder { kind: EncoderKind::Amf, hardware_decode: true }.decode_args(),
        vec!["-hwaccel".to_string(), "d3d11va".to_string()]
    );
    assert!(ResolvedEncoder { kind: EncoderKind::Qsv, hardware_decode: false }
        .decode_args()
        .is_empty());
}

#[test]
fn auto_prefers_hardware_then_falls_back_to_cpu() {
    // Nothing available -> CPU.
    let none = EncoderSupport::default();
    assert_eq!(none.resolve(EncoderChoice::Auto, true).0.kind, EncoderKind::Cpu);

    // AMF available -> Auto picks it.
    let amd = EncoderSupport { amf: Availability::Available, ..Default::default() };
    let (resolved, note) = amd.resolve(EncoderChoice::Auto, true);
    assert_eq!(resolved.kind, EncoderKind::Amf);
    assert!(resolved.hardware_decode);
    assert!(note.is_none());

    // NVENC preferred over AMF when both are available.
    let both = EncoderSupport {
        nvenc: Availability::Available,
        amf: Availability::Available,
        ..Default::default()
    };
    assert_eq!(both.resolve(EncoderChoice::Auto, false).0.kind, EncoderKind::Nvenc);
}

#[test]
fn choosing_an_unavailable_encoder_falls_back_with_a_note() {
    let support = EncoderSupport {
        nvenc: Availability::Unavailable("NVIDIA GPU not detected".into()),
        ..Default::default()
    };
    let (resolved, note) = support.resolve(EncoderChoice::Nvenc, true);
    assert_eq!(resolved.kind, EncoderKind::Cpu);
    assert!(note.unwrap().contains("NVIDIA GPU not detected"));
}

#[test]
fn hardware_decoding_is_never_asked_of_the_cpu() {
    let support = EncoderSupport::default();
    for choice in EncoderChoice::all() {
        assert!(!support.resolve(choice, true).0.hardware_decode, "{choice:?}");
    }
}

#[test]
fn parse_encoders_finds_names_after_the_divider() {
    let out = "Encoders:\n V..... = Video\n ------\n V....D libx264 desc\n V....D h264_amf desc\n";
    let names = parse_encoder_names(out);
    assert!(names.contains(&"libx264".to_string()));
    assert!(names.contains(&"h264_amf".to_string()));
}

#[test]
fn without_output_no_encoder_is_compiled_in() {
    assert!(compiled_in_encoders(None).is_empty());
    assert_eq!(compiled_in_encoders(Some("x\n ------\n V....D h264_qsv d\n")), vec!["h264_qsv"]);
}

#[test]
fn parse_gpu_lines_drops_header_and_blanks() {
    let out = "Name\n\nAMD Radeon Graphics\n";
    assert_eq!(parse_gpu_lines(out), vec!["AMD Radeon Graphics".to_string()]);
}

#[test]
fn the_first_query_is_taken_only_with_names() {
    assert_eq!(first_query_names(None), None);
    assert_eq!(first_query_names(Some("Name\n\n")), None);
    assert_eq!(
        first_query_names(Some("Name\nIntel(R) UHD Graphics\n")),
        Some(vec!["Intel(R) UHD Graphics".to_string()])
    );
}

#[test]
fn vendor_matching_is_case_insensitive() {
    assert!(Vendor::Amd.matches("AMD Radeon Graphics"));
    assert!(Vendor::Nvidia.matches("NVIDIA GeForce RTX"));
    assert!(Vendor::Intel.matches("Intel(R) UHD Graphics"));
    assert!(!Vendor::Nvidia.matches("AMD Radeon Graphics"));
}

#[test]
fn an_encoder_needs_its_codec_its_gpu_and_a_test() {
    let compiled = vec!["h264_nvenc".to_string()];
    let nvidia = vec!["NVIDIA GeForce".to_string()];
    let amd = vec!["AMD Radeon".to_string()];
    // Not compiled in.
    assert!(refuse_without_test(EncoderKind::Nvenc, &[], &nvidia).is_some());
    // No such GPU.
    assert!(refuse_without_test(EncoderKind::Nvenc, &compiled, &amd).is_some());
    // Both there: the test decides.
    assert_eq!(refuse_without_test(EncoderKind::Nvenc, &compiled, &nvidia), None);
    assert_eq!(
        probe(EncoderKind::Nvenc, &compiled, &nvidia, Ok(())),
        Availability::Available
    );
    assert_eq!(
        probe(EncoderKind::Nvenc, &compiled, &nvidia, Err("no device".into())),
        Availability::Unavailable("no device".into())
    );
}

#[test]
fn the_test_encode_reports_the_most_telling_line() {
    assert_eq!(test_encode_outcome(true, "anything"), Ok(()));
    let stderr = "[h264_amf @ 0x1] init\nError opening encoder\nframe= 0 fps=0\n";
    assert_eq!(test_encode_outcome(false, stderr), Err("Error opening encoder".to_string()));
    assert_eq!(short_reason("[only brackets]\n"), "[only brackets]");
    assert_eq!(short_reason(""), "test encode failed");
    assert_eq!(short_reason(&"x".repeat(200)).len(), 160);
    assert!(test_encode_args("h264_qsv").contains(&"h264_qsv".to_string()));
}

#[test]
fn labels_name_the_codec() {
    assert_eq!(EncoderKind::Amf.full_label(), "AMD AMF (h264_amf)");
    assert_eq!(EncoderKind::Cpu.codec(), "libx264");
    assert_eq!(EncoderKind::Cpu.vendor(), None);
    assert_eq!(Vendor::Nvidia.human(), "NVIDIA");
    assert_eq!(EncoderChoice::Cpu.kind(), None);
    assert_eq!(Availability::Available.reason(), None);
    assert_eq!(Availability::Unavailable("x".into()).reason(), Some("x"));
}
