use muxfin::cmaf::{cmaf_init_ftyp, cmaf_styp, CmafError, CmafProfile};
use muxfin::fragmented::FragmentConfig;

fn h264_config() -> FragmentConfig {
    FragmentConfig {
        width: 1280,
        height: 720,
        timescale: 90_000,
        fragment_duration_ms: 2000,
        ..FragmentConfig::default()
    }
}

#[test]
fn brands_are_registered_fourccs() {
    assert_eq!(CmafProfile::AvcHd.brand(), *b"cfhd");
    assert_eq!(CmafProfile::AvcSd.brand(), *b"cfsd");
    assert_eq!(CmafProfile::AvcUhd.brand(), *b"cud1");
    assert_eq!(CmafProfile::HevcHd.brand(), *b"chd1");
    assert_eq!(CmafProfile::Av1Hd.brand(), *b"cav1");
    assert_eq!(CmafProfile::Aac.brand(), *b"caac");
    assert_eq!(CmafProfile::Flac.brand(), *b"cfla");
}

#[test]
fn hd_accepts_hd_config() {
    assert!(
        CmafProfile::AvcHd
            .check_config(&h264_config(), None)
            .is_ok()
    );
}

#[test]
fn rejects_bad_timescale() {
    let mut cfg = h264_config();
    cfg.timescale = 48_000;
    assert_eq!(
        CmafProfile::AvcHd.check_config(&cfg, None),
        Err(CmafError::BadTimescale {
            expected: 90_000,
            actual: 48_000
        })
    );
}

#[test]
fn rejects_oversize_resolution() {
    let mut cfg = h264_config();
    cfg.width = 3840;
    cfg.height = 2160;
    assert!(matches!(
        CmafProfile::AvcHd.check_config(&cfg, None),
        Err(CmafError::ResolutionTooLarge { .. })
    ));
    // ...but the UHD profile accepts it.
    assert!(CmafProfile::AvcUhd.check_config(&cfg, None).is_ok());
}

#[test]
fn rejects_missing_parameter_sets() {
    let mut cfg = h264_config();
    cfg.sps.clear();
    assert_eq!(
        CmafProfile::AvcHd.check_config(&cfg, None),
        Err(CmafError::MissingParameterSets { profile: "cfhd" })
    );
    let mut cfg = h264_config();
    cfg.vps = None;
    assert!(matches!(
        CmafProfile::HevcHd.check_config(&cfg, None),
        Err(CmafError::MissingParameterSets { .. })
    ));
}

#[test]
fn rejects_absurd_fragment_durations() {
    let mut cfg = h264_config();
    cfg.fragment_duration_ms = 100;
    assert!(matches!(
        CmafProfile::AvcHd.check_config(&cfg, None),
        Err(CmafError::FragmentDurationOutOfRange { .. })
    ));
}

#[test]
fn styp_bytes() {
    let styp = cmaf_styp();
    assert_eq!(&styp[4..8], b"styp");
    assert_eq!(&styp[8..12], b"msdh");
    assert_eq!(&styp[16..20], b"msdh");
    assert_eq!(&styp[20..24], b"msix");
}

#[test]
fn init_ftyp_advertises_cmf2_and_profile() {
    let ftyp = cmaf_init_ftyp(CmafProfile::AvcHd);
    assert_eq!(&ftyp[4..8], b"ftyp");
    assert_eq!(&ftyp[8..12], b"cmf2");
    assert_eq!(&ftyp[16..20], b"cmf2");
    assert_eq!(&ftyp[20..24], b"cfhd");
}
