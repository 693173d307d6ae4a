use dark_cli::builder::build;
use dark_cli::client::{prepare_upload, UploadPlan};
use dark_cli::collector::{collect, split_path_specs, DiscoveredFile};
use dark_cli::error::DarkError;
use dark_cli::fmt::decimal_string;
use dark_cli::session::derive_session;

// The whole pipeline on one file, with the probe's response supplied as the
// values its transport would hand over: authenticate, collect, build, and
// configure exactly one POST to the canvas's static-assets endpoint carrying
// the one file.
#[test]
fn one_file_end_to_end_configures_one_post() {
    let session = derive_session(
        200,
        Some("session=alice-cookie".to_string()),
        "<script>const csrfToken = \"alice-csrf\";</script>",
    )
    .expect("probe succeeds for alice:secret");

    let roots = split_path_specs("/tmp/assets");
    assert_eq!(roots, vec!["/tmp/assets".to_string()]);

    let walked = vec![DiscoveredFile {
        path: "/tmp/assets/logo.png".to_string(),
        size_bytes: 1024,
    }];
    let batch = collect("/tmp/assets", &walked).expect("one file collects");
    assert_eq!(batch.total_size_bytes, 1024);
    assert_eq!(batch.entries.len(), 1);

    let parts = build(&batch);
    assert_eq!(parts.len(), 1);
    assert_eq!(parts[0].field_name, "logo.png");

    let plan = prepare_upload("https://darklang.com", "demo", session, parts, false);
    match plan {
        UploadPlan::Transmit(req) => {
            assert_eq!(req.url, "https://darklang.com/api/demo/static_assets");
            assert_eq!(req.cookie_header, "session=alice-cookie");
            assert_eq!(req.csrf_header, "alice-csrf");
            assert_eq!(req.parts.len(), 1);
            assert_eq!(req.parts[0].field_name, "logo.png");
            assert_eq!(req.parts[0].source_path, "/tmp/assets/logo.png");
        }
        UploadPlan::DryRun(_) => panic!("a real run must transmit"),
    }
}

#[test]
fn any_stage_failure_carries_its_context() {
    assert_eq!(
        derive_session(503, Some("c=1".to_string()), "").err(),
        Some(DarkError::AuthFailure(503))
    );
    assert_eq!(
        collect("/nowhere", &Vec::new()).err(),
        Some(DarkError::NoFilesFound("/nowhere".to_string()))
    );
}

#[test]
fn errors_describe_their_discriminant_and_context() {
    assert_eq!(DarkError::AuthFailure(401).describe(), "Failure to auth: 401");
    assert_eq!(
        DarkError::MissingSessionCookie.describe(),
        "No Set-Cookie header received."
    );
    assert_eq!(
        DarkError::TokenExtractionFailure.describe(),
        "No CSRF token found in response body."
    );
    assert_eq!(
        DarkError::NoFilesFound("/tmp/a".to_string()).describe(),
        "No files found in /tmp/a."
    );
    assert_eq!(DarkError::MissingFilename.describe(), "Missing filename.");
    assert_eq!(
        DarkError::TransportFailure("dns error".to_string()).describe(),
        "Transport failure: dns error"
    );
    assert_eq!(
        DarkError::UploadFailure("broken pipe".to_string()).describe(),
        "Upload failure: broken pipe"
    );
    assert_eq!(
        DarkError::MissingArgument("paths".to_string()).describe(),
        "Missing argument: paths"
    );
}

#[test]
fn decimal_rendering_is_exact() {
    assert_eq!(decimal_string(0), "0");
    assert_eq!(decimal_string(7), "7");
    assert_eq!(decimal_string(401), "401");
    assert_eq!(decimal_string(1024), "1024");
    assert_eq!(decimal_string(u64::MAX), "18446744073709551615");
}
