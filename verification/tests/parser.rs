use muuf::parser::process;
use muuf::record::{link_file_name, remove_video_ext_from, Episode, ParseError};

#[test]
fn test_remove_video_ext_from() {
    let name = "[Up to 21°C] 擅长逃跑的殿下 / Nige Jouzu no Wakagimi - 9.5 (Baha 1920x1080 AVC AAC MP4)";
    assert_eq!(name, remove_video_ext_from(&name));
    assert_eq!(name, remove_video_ext_from(&format!("{name}.mp4")));
}

#[test]
fn test_parser() {
    let ep = process("[Up to 21°C] 擅长逃跑的殿下 / Nige Jouzu no Wakagimi - 9.5 (Baha 1920x1080 AVC AAC MP4)");
    assert!(
        matches!(ep, Ok(Episode::Sp{ name }) if name == "[Up to 21°C] 擅长逃跑的殿下 / Nige Jouzu no Wakagimi - 9.5 (Baha 1920x1080 AVC AAC MP4)")
    );

    let ep = process("【幻樱字幕组】【4月新番】【古见同学有交流障碍症 第二季 Komi-san wa, Komyushou Desu. S02】【22】【GB_MP4】【1920X1080】");
    assert!(matches!(ep, Ok(Episode::Ep(_))));
    let ep = ep.unwrap().unwrap_ep();
    assert_eq!(ep.sub_group, "幻樱字幕组");
    assert_eq!(ep.season, 2);
    assert_eq!(ep.name_en, Some("Komi-san wa, Komyushou Desu.".to_string()));
    assert_eq!(ep.name_zh, Some("古见同学有交流障碍症".to_string()));
    assert_eq!(ep.episode, 22);
    assert_eq!(ep.sub, Some("GB".to_string()));
    assert_eq!(ep.resolution, Some("1920X1080".to_string()));

    let ep = process("[百冬练习组&LoliHouse] BanG Dream! 少女乐团派对！☆PICO FEVER！ / Garupa Pico: Fever! - 26 [WebRip 1080p HEVC-10bit AAC][简繁内封字幕][END] [101.69 MB]");
    assert!(matches!(ep, Ok(Episode::Ep(_))));
    let ep = ep.unwrap().unwrap_ep();
    assert_eq!(ep.sub_group, "百冬练习组&LoliHouse");
    assert_eq!(ep.season, 1);
    assert_eq!(ep.name_en, Some("Garupa Pico: Fever!".to_string()));
    assert_eq!(
        ep.name_zh,
        Some("BanG Dream! 少女乐团派对！☆PICO FEVER！".to_string())
    );
    assert_eq!(ep.episode, 26);
    assert_eq!(ep.sub, Some("简繁内封字幕".to_string()));
    assert_eq!(ep.resolution, Some("1080p".to_string()));
    assert_eq!(ep.source, Some("WebRip".to_string()));

    let ep = process("【喵萌奶茶屋】★04月新番★[夏日重现/Summer Time Rendering][11][1080p][繁日双语][招募翻译]");
    assert!(matches!(ep, Ok(Episode::Ep(_))));
    let ep = ep.unwrap().unwrap_ep();
    assert_eq!(ep.sub_group, "喵萌奶茶屋");
    assert_eq!(ep.season, 1);
    assert_eq!(ep.name_en, Some("Summer Time Rendering".to_string()));
    assert_eq!(ep.name_zh, Some("夏日重现".to_string()));
    assert_eq!(ep.episode, 11);
    assert_eq!(ep.sub, Some("繁日双语".to_string()));
    assert_eq!(ep.resolution, Some("1080p".to_string()));

    let ep = process("[Lilith-Raws] 关于我在无意间被隔壁的天使变成废柴这件事 / Otonari no Tenshi-sama - 09 [Baha][WEB-DL][1080p][AVC AAC][CHT][MP4]");
    assert!(matches!(ep, Ok(Episode::Ep(_))));
    let ep = ep.unwrap().unwrap_ep();
    assert_eq!(ep.sub_group, "Lilith-Raws");
    assert_eq!(ep.season, 1);
    assert_eq!(ep.episode, 9);
    assert_eq!(ep.name_en, Some("Otonari no Tenshi-sama".to_string()));
    assert_eq!(ep.resolution, Some("1080p".to_string()));
    assert_eq!(
        ep.name_zh,
        Some("关于我在无意间被隔壁的天使变成废柴这件事".to_string())
    );

    let ep = process(
        "[梦蓝字幕组]New Doraemon 哆啦A梦新番[747][2023.02.25][AVC][1080P][GB_JP][MP4]",
    );
    assert!(matches!(ep, Ok(Episode::Ep(_))));
    let ep = ep.unwrap().unwrap_ep();
    assert_eq!(ep.sub_group, "梦蓝字幕组");
    assert_eq!(ep.season, 1);
    assert_eq!(ep.episode, 747);
    assert_eq!(ep.name_en, Some("New Doraemon".to_string()));
    assert_eq!(ep.resolution, Some("1080P".to_string()));
    assert_eq!(ep.name_zh, Some("哆啦A梦新番".to_string()));

    let ep = process(
        "[织梦字幕组][尼尔：机械纪元 NieR Automata Ver1.1a][02集][1080P][AVC][简日双语]",
    );
    assert!(matches!(ep, Ok(Episode::Ep(_))));
    let ep = ep.unwrap().unwrap_ep();
    assert_eq!(ep.sub_group, "织梦字幕组");
    assert_eq!(ep.season, 1);
    assert_eq!(ep.episode, 2);
    assert_eq!(ep.name_en, Some("NieR Automata Ver1.1a".to_string()));
    assert_eq!(ep.resolution, Some("1080P".to_string()));
    assert_eq!(ep.name_zh, Some("尼尔：机械纪元".to_string()));

    let ep = process(
        "[MagicStar] 假面骑士Geats / 仮面ライダーギーツ EP33 [WEBDL] [1080p] [TTFC]【生】",
    );
    assert!(matches!(ep, Ok(Episode::Ep(_))));
    let ep = ep.unwrap().unwrap_ep();
    assert_eq!(ep.sub_group, "MagicStar");
    assert_eq!(ep.season, 1);
    assert_eq!(ep.episode, 33);
    assert_eq!(ep.name_zh, Some("假面骑士Geats".to_string()));
    assert_eq!(ep.name_jp, Some("仮面ライダーギーツ".to_string()));
    assert_eq!(ep.resolution, Some("1080p".to_string()));

    let ep = process("【极影字幕社】★4月新番 天国大魔境 Tengoku Daimakyou 第05话 GB 720P MP4（字幕社招人内详）");
    assert!(matches!(ep, Ok(Episode::Ep(_))));
    let ep = ep.unwrap().unwrap_ep();
    assert_eq!(ep.sub_group, "极影字幕社");
    assert_eq!(ep.season, 1);
    assert_eq!(ep.episode, 5);
    assert_eq!(ep.name_zh, Some("天国大魔境".to_string()));
    assert_eq!(ep.name_en, Some("Tengoku Daimakyou".to_string()));
    assert_eq!(ep.resolution, Some("720P".to_string()));

    let ep = process("【极影字幕·毁片党】LoveLive! SunShine!! 幻日的夜羽 -SUNSHINE in the MIRROR- 第01集 TV版 HEVC_opus 1080p ");
    assert!(matches!(ep, Ok(Episode::Ep(_))));
    let ep = ep.unwrap().unwrap_ep();
    assert_eq!(ep.sub_group, "极影字幕·毁片党");
    assert_eq!(ep.season, 1);
    assert_eq!(ep.episode, 1);
    assert_eq!(ep.name_zh, Some("幻日的夜羽".to_string()));
    assert_eq!(ep.name_en, Some("LoveLive! SunShine!!".to_string()));
    assert_eq!(ep.resolution, Some("1080p".to_string()));

    let ep = process(
        "[ANi] BLEACH 死神 千年血战篇-诀别谭- - 14 [1080P][Baha][WEB-DL][AAC AVC][CHT][MP4]",
    );
    assert!(matches!(ep, Ok(Episode::Ep(_))));
    let ep = ep.unwrap().unwrap_ep();
    assert_eq!(ep.sub_group, "ANi");
    assert_eq!(ep.season, 1);
    assert_eq!(ep.episode, 14);
    assert_eq!(ep.name_zh, Some("死神 千年血战篇-诀别谭-".to_string()));
    assert_eq!(ep.name_en, Some("BLEACH".to_string()));
    assert_eq!(ep.resolution, Some("1080P".to_string()));
}

#[test]
fn parsed_season_is_at_least_one() {
    // A title with no season marker defaults to season 1.
    let ep = process("[grp] Some Show - 05 [1080p]").unwrap().unwrap_ep();
    assert_eq!(ep.season, 1);
    assert_eq!(ep.episode, 5);
    // An explicit marker of zero is not accepted as a season.
    let ep = process("[grp] Some Show S00 - 05 [1080p]").unwrap().unwrap_ep();
    assert_eq!(ep.season, 1);
}

#[test]
fn stem_round_trip_through_parser() {
    let stem = link_file_name("Name", &2, &22);
    assert_eq!(stem, "Name S02E22");
    let title = format!("[grp] {stem} [1080p]");
    let ep = process(&title).unwrap().unwrap_ep();
    assert_eq!(ep.season, 2);
    assert_eq!(ep.episode, 22);
    assert_eq!(ep.name_en, Some("Name".to_string()));
}

#[test]
fn unbracketed_title_is_special() {
    let ep = process("  just some words 42  ");
    assert!(matches!(ep, Ok(Episode::Sp { name }) if name == "just some words 42"));
}

#[test]
fn trailing_text_after_embedded_episode_is_refused() {
    let ep = process("[grp] Show - 11 extra [1080p]");
    assert_eq!(ep.unwrap_err(), ParseError::AmbiguousEpisodeTrailer);
}

#[test]
fn episode_without_name_blocks_is_refused() {
    let ep = process("[grp][12][1080p]");
    assert_eq!(ep.unwrap_err(), ParseError::MissingNameBlock);
}

#[test]
fn fractional_episode_is_not_recognized() {
    let title = "[grp] Show - 9.5 (Baha 1080p)";
    let ep = process(title);
    assert!(matches!(ep, Ok(Episode::Sp { name }) if name == title));
}

#[test]
fn version_suffix_after_episode_is_consumed() {
    let ep = process("[grp] Show - 09v2 [1080p]").unwrap().unwrap_ep();
    assert_eq!(ep.episode, 9);
    let ep = process("[grp] Show [12v3] [1080p]").unwrap().unwrap_ep();
    assert_eq!(ep.episode, 12);
}

#[test]
fn season_marker_forms_are_recognized() {
    let ep = process("[grp] Show Season 4 - 09 [1080p]").unwrap().unwrap_ep();
    assert_eq!(ep.season, 4);
    let ep = process("[grp] 某动画 第十季 - 09 [1080p]").unwrap().unwrap_ep();
    assert_eq!(ep.season, 10);
    let ep = process("[grp] 某动画 第2部分 - 09 [1080p]").unwrap().unwrap_ep();
    assert_eq!(ep.season, 2);
}

#[test]
fn unknown_season_numeral_is_ignored() {
    let ep = process("[grp] 某动画 第X季 - 09 [1080p]").unwrap().unwrap_ep();
    assert_eq!(ep.season, 1);
    assert_eq!(ep.episode, 9);
}

#[test]
fn empty_title_is_special() {
    let ep = process("");
    assert!(matches!(ep, Ok(Episode::Sp { name }) if name.is_empty()));
}
