use crashlab_core::campaign_presets::CampaignPreset;

#[test]
fn presets_order_by_budget_and_intensity() {
    let s = CampaignPreset::Smoke.parameters();
    let n = CampaignPreset::Nightly.parameters();
    let d = CampaignPreset::Deep.parameters();

    assert!(s.max_mutations_per_run < n.max_mutations_per_run);
    assert!(n.max_mutations_per_run < d.max_mutations_per_run);

    assert!(s.mutation_intensity_bps < n.mutation_intensity_bps);
    assert!(n.mutation_intensity_bps < d.mutation_intensity_bps);
}

#[test]
fn intensity_bps_within_range() {
    for p in CampaignPreset::ALL {
        let x = p.parameters().mutation_intensity_bps;
        assert!(x <= 10_000, "intensity must be at most 10000 bps");
    }
}

#[test]
fn parse_roundtrip() {
    assert_eq!(
        "smoke".parse::<CampaignPreset>().unwrap(),
        CampaignPreset::Smoke
    );
    assert_eq!(
        "NIGHTLY".parse::<CampaignPreset>().unwrap(),
        CampaignPreset::Nightly
    );
    assert_eq!(
        " Deep ".parse::<CampaignPreset>().unwrap(),
        CampaignPreset::Deep
    );
    assert!("".parse::<CampaignPreset>().is_err());
}


#[test]
fn campaign_presets_display_matches_as_str() {
    for p in CampaignPreset::ALL {
        assert_eq!(p.to_string(), p.as_str());
    }
}

#[test]
fn parse_error_message_quotes_the_input() {
    let err = "fast".parse::<CampaignPreset>().unwrap_err();
    assert_eq!(err.message(), "unknown campaign preset \"fast\": expected smoke, nightly, or deep");
}

#[test]
fn parse_ignores_unicode_whitespace_around_the_name() {
    assert_eq!(CampaignPreset::parse("\u{3000}Deep\u{a0}\n"), Ok(CampaignPreset::Deep));
    assert_eq!(CampaignPreset::parse("\u{2003}SMOKE\u{2028}"), Ok(CampaignPreset::Smoke));
    assert!(CampaignPreset::parse("smo ke").is_err());
}
