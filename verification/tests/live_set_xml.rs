use studio_project_manager::errors::{AttributeError, SampleError, TempoError, XmlParseError};
use studio_project_manager::plugins::{find_plugin_tags, parse_plugin_format, plugin_from_info, PluginFormat, PluginInfo};
use studio_project_manager::samples::{decode_sample_path, find_sample_path_data, parse_sample_paths};
use studio_project_manager::tags::{attribute_value, find_attribute, find_empty_event, find_tags, XmlTag};
use studio_project_manager::tempo::{find_post_10_tempo, find_pre_10_tempo};
use studio_project_manager::types::DbPlugin;

#[test]
fn tempo_of_live_10_set() {
    let xml = br#"<Ableton><LiveSet><MasterTrack><Tempo><LomId Value="0" /><Manual Value="120.5" /></Tempo></MasterTrack></LiveSet></Ableton>"#;
    assert_eq!(find_post_10_tempo(xml).unwrap(), "120.5");
}

#[test]
fn manual_outside_tempo_is_ignored() {
    let xml = br#"<Ableton><Other><Manual Value="99" /></Other><Tempo><Manual Value="128" /></Tempo></Ableton>"#;
    assert_eq!(find_post_10_tempo(xml).unwrap(), "128");
}

#[test]
fn missing_tempo() {
    assert!(matches!(find_post_10_tempo(b"<Ableton></Ableton>"), Err(TempoError::TempoNotFound)));
}

#[test]
fn tempo_of_older_set() {
    let xml = br#"<Ableton><FloatEvent><FloatEvent Time="0" Value="98" /></FloatEvent></Ableton>"#;
    assert_eq!(find_pre_10_tempo(xml).unwrap(), "98");
    assert!(matches!(find_pre_10_tempo(b"<Ableton />"), Err(TempoError::TempoNotFound)));
}

#[test]
fn malformed_xml_is_an_xml_error() {
    assert!(matches!(
        find_post_10_tempo(b"<Ableton><Tempo></Wrong></Ableton>"),
        Err(TempoError::XmlError(XmlParseError::QuickXmlError))
    ));
}

#[test]
fn tags_are_collected_per_occurrence() {
    let xml = br#"<R><Group><A x="1" /><Inner><B y="2" /></Inner></Group><Group><A x="3" /></Group></R>"#;
    let found = find_tags(xml, &["Group"], 0).unwrap();
    assert_eq!(found.len(), 1);
    assert_eq!(found[0].0, "Group");
    let groups = &found[0].1;
    assert_eq!(groups.len(), 2);
    assert_eq!(groups[0].len(), 1);
    assert_eq!(groups[0][0].name, "A");
    assert_eq!(groups[0][0].attributes, vec![("x".to_string(), "1".to_string())]);
    assert_eq!(groups[1][0].attributes, vec![("x".to_string(), "3".to_string())]);
    let deeper = find_tags(xml, &["Group"], 1).unwrap();
    assert_eq!(deeper[0].1[0][0].name, "B");
}

#[test]
fn attribute_lookup() {
    let tags = vec![
        XmlTag { name: "Path".to_string(), attributes: vec![("Value".to_string(), "/x.wav".to_string())] },
        XmlTag { name: "Path".to_string(), attributes: vec![] },
    ];
    assert_eq!(find_attribute(&tags, "Path", "Value").unwrap(), "/x.wav");
    match find_attribute(&tags, "Path", "Other") {
        Err(AttributeError::ValueNotFound(a)) => assert_eq!(a, "Other"),
        other => panic!("unexpected {:?}", other),
    }
    match find_attribute(&tags, "Missing", "Value") {
        Err(AttributeError::NotFound(t)) => assert_eq!(t, "Missing"),
        other => panic!("unexpected {:?}", other),
    }
}

#[test]
fn empty_event_attributes() {
    let xml = br#"<R><E a="1" b="two" /></R>"#;
    let attrs = find_empty_event(xml, "E").unwrap();
    assert_eq!(attribute_value(&attrs, "b"), Some("two".to_string()));
    assert_eq!(attribute_value(&attrs, "c"), None);
    match find_empty_event(xml, "F") {
        Err(XmlParseError::EventNotFound(q)) => assert_eq!(q, "F"),
        other => panic!("unexpected {:?}", other),
    }
}

#[test]
fn plugin_formats() {
    assert_eq!(parse_plugin_format("device:vst3:instr:abc"), Some(PluginFormat::VST3Instrument));
    assert_eq!(parse_plugin_format("device:vst3:audiofx:abc"), Some(PluginFormat::VST3AudioFx));
    assert_eq!(parse_plugin_format("device:vst:instr:abc"), Some(PluginFormat::VST2Instrument));
    assert_eq!(parse_plugin_format("device:vst:audiofx:abc"), Some(PluginFormat::VST2AudioFx));
    assert_eq!(parse_plugin_format("device:au:instr:abc"), None);
}

#[test]
fn plugins_of_a_set() {
    let xml = br#"<Ableton><LiveSet>
        <PluginDevice>
          <SourceContext><Value><BranchSourceContext><BrowserContentPath Value="x" /><BranchDeviceId Value="device:vst3:instr:Serum" /></BranchSourceContext></Value></SourceContext>
          <PluginDesc><Vst3PluginInfo Id="0"><PlugName>Serum &amp; Co</PlugName></Vst3PluginInfo></PluginDesc>
        </PluginDevice>
    </LiveSet></Ableton>"#;
    let infos = find_plugin_tags(xml).unwrap();
    assert_eq!(infos.len(), 1);
    assert_eq!(infos[0].dev_identifier, "device:vst3:instr:Serum");
    assert_eq!(infos[0].name, "Serum & Co");
    assert_eq!(infos[0].plugin_format, PluginFormat::VST3Instrument);
}

#[test]
fn plugin_resolution() {
    let info = PluginInfo {
        name: "Serum".to_string(),
        dev_identifier: "device:vst3:instr:Serum".to_string(),
        plugin_format: PluginFormat::VST3Instrument,
    };
    let missing = plugin_from_info(&info, None);
    assert!(!missing.installed);
    assert_eq!(missing.name, "Serum");
    assert_eq!(missing.plugin_id, None);
    let row = DbPlugin {
        plugin_id: 7,
        module_id: Some(3),
        dev_identifier: "device:vst3:instr:Serum".to_string(),
        name: "Serum (Xfer)".to_string(),
        vendor: Some("Xfer Records".to_string()),
        version: Some("1.3".to_string()),
        sdk_version: None,
        flags: Some(1),
        scanstate: Some(2),
        enabled: Some(1),
    };
    let found = plugin_from_info(&info, Some(row));
    assert!(found.installed);
    assert_eq!(found.plugin_id, Some(7));
    assert_eq!(found.name, "Serum (Xfer)");
    assert_eq!(found.vendor.as_deref(), Some("Xfer Records"));
    assert_eq!(found.plugin_format, PluginFormat::VST3Instrument);
}

#[test]
fn samples_of_live_11_set() {
    let xml = br#"<Ableton><SampleRef><FileRef><Path Value="/samples/kick.wav" /></FileRef></SampleRef><SampleRef><FileRef><Path Value="/samples/snare.wav" /></FileRef></SampleRef></Ableton>"#;
    let found = parse_sample_paths(xml, 11).unwrap();
    assert_eq!(found.len(), 1);
    assert_eq!(found[0].0, "SampleRef");
    assert_eq!(found[0].1, vec!["/samples/kick.wav".to_string(), "/samples/snare.wav".to_string()]);
}

#[test]
fn sample_path_hex_decoding() {
    // "C:/a" in UTF-16LE, hex-encoded, with a line-break escape inside.
    assert_eq!(decode_sample_path("43003A00\\n2F006100").unwrap(), "C:/a");
    assert_eq!(decode_sample_path("430000003A00").unwrap(), "C:");
    assert!(matches!(decode_sample_path("4G00"), Err(SampleError::HexDecodeError)));
    assert!(matches!(decode_sample_path("00D8"), Err(SampleError::InvalidUtf16Encoding)));
    assert!(matches!(decode_sample_path("430"), Err(SampleError::HexDecodeError)));
}

#[test]
fn samples_of_older_set() {
    let xml = br#"<Ableton><SampleRef><FileRef><Data>
        43003A002F006100
    </Data></FileRef></SampleRef><Data>FFFF</Data></Ableton>"#;
    let data = find_sample_path_data(xml).unwrap();
    assert_eq!(data, vec!["43003A002F006100".to_string()]);
    let found = parse_sample_paths(xml, 10).unwrap();
    assert_eq!(found.len(), 1);
    assert_eq!(found[0].0, "SampleData");
    assert_eq!(found[0].1, vec!["C:/a".to_string()]);
}

#[test]
fn each_searched_name_appears_once() {
    let xml = br#"<R><A><T v="1" /></A><B><T v="2" /></B><A><T v="3" /></A><C><T v="4" /></C></R>"#;
    let found = find_tags(xml, &["A", "B"], 0).unwrap();
    let names: Vec<&str> = found.iter().map(|(n, _)| n.as_str()).collect();
    assert_eq!(names, vec!["A", "B"]);
    assert_eq!(found[0].1.len(), 2);
    assert_eq!(found[1].1.len(), 1);
}
