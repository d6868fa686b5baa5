use nova_music::metadata::{
    album_step, interpret_tags, match_existing_album, AlbumStep, Grouping, MetadataTag, TagKey,
    TagProblem, TagSummary, TagValue,
};

fn text(key: TagKey, v: &str) -> MetadataTag {
    MetadataTag { key, value: TagValue::Text(v.to_string()) }
}

fn summary(tags: Vec<MetadataTag>) -> TagSummary {
    match interpret_tags(&tags) {
        Ok(s) => s,
        Err(e) => panic!("unexpected error at {}", e.index),
    }
}

#[test]
fn tags_fill_summary_with_later_tags_winning() {
    let s = summary(vec![
        text(TagKey::Album, "First"),
        text(TagKey::TrackTitle, "Song"),
        text(TagKey::Artist, "A"),
        text(TagKey::Artist, "B"),
        text(TagKey::Album, "Second"),
        MetadataTag { key: TagKey::Other, value: TagValue::Text("ignored".to_string()) },
    ]);
    assert_eq!(s.album_name, "Second");
    assert_eq!(s.title.as_deref(), Some("Song"));
    assert_eq!(s.artist_name.as_deref(), Some("B"));
    assert_eq!(s.disc_total, 1);
    assert_eq!(s.disc_number, 0);
    assert_eq!(s.track_number, 0);
    assert_eq!(s.track_total, 0);
}

#[test]
fn numbers_before_slash_are_read() {
    let s = summary(vec![
        text(TagKey::TrackNumber, "3/12"),
        text(TagKey::DiscNumber, "+2"),
        text(TagKey::TrackTotal, "12"),
        text(TagKey::DiscTotal, "2"),
    ]);
    assert_eq!(s.track_number, 3);
    assert_eq!(s.disc_number, 2);
    assert_eq!(s.track_total, 12);
    assert_eq!(s.disc_total, 2);
}

#[test]
fn unsigned_numbers_are_cut_to_32_bits() {
    let s = summary(vec![
        MetadataTag { key: TagKey::TrackNumber, value: TagValue::UnsignedInt(7) },
        MetadataTag { key: TagKey::DiscNumber, value: TagValue::UnsignedInt((1u64 << 32) + 5) },
        MetadataTag { key: TagKey::TrackTotal, value: TagValue::UnsignedInt(9) },
    ]);
    assert_eq!(s.track_number, 7);
    assert_eq!(s.disc_number, 5);
    assert_eq!(s.track_total, 0);
}

#[test]
fn genres_and_album_artists_collect_in_order() {
    let s = summary(vec![
        text(TagKey::Genre, "Rock"),
        text(TagKey::Genre, ""),
        MetadataTag { key: TagKey::Genre, value: TagValue::UnsignedInt(80) },
        MetadataTag { key: TagKey::Genre, value: TagValue::Other("1.5".to_string()) },
        text(TagKey::AlbumArtist, " Band "),
        text(TagKey::AlbumArtist, "Other"),
        MetadataTag { key: TagKey::AlbumArtist, value: TagValue::UnsignedInt(1) },
    ]);
    assert_eq!(s.genres, vec!["Rock".to_string(), "80".to_string(), "1.5".to_string()]);
    assert_eq!(s.album_artists, vec![" Band ".to_string(), "Other".to_string()]);
}

#[test]
fn bad_track_number_reports_first_bad_tag() {
    let tags = vec![
        text(TagKey::Album, "A"),
        text(TagKey::TrackNumber, "x/3"),
        text(TagKey::DiscTotal, "nope"),
    ];
    let err = interpret_tags(&tags).err().expect("error expected");
    assert_eq!(err.index, 1);
    match err.problem {
        TagProblem::BadNumber(t) => assert_eq!(t, "x"),
        TagProblem::BadTotal(_) => panic!("wrong problem"),
    }
}

#[test]
fn bad_total_is_reported() {
    let tags = vec![text(TagKey::TrackTotal, "-1")];
    let err = interpret_tags(&tags).err().expect("error expected");
    assert_eq!(err.index, 0);
    match err.problem {
        TagProblem::BadTotal(t) => assert_eq!(t, "-1"),
        TagProblem::BadNumber(_) => panic!("wrong problem"),
    }
    let overflow = vec![text(TagKey::DiscNumber, "4294967296")];
    assert!(interpret_tags(&overflow).is_err());
    let max = summary(vec![text(TagKey::DiscNumber, "4294967295")]);
    assert_eq!(max.disc_number, u32::MAX);
}

#[test]
fn existing_album_match_picks_last_matching() {
    let similar = vec![(1, Some(5)), (2, Some(6)), (3, Some(5)), (4, Some(7))];
    assert_eq!(match_existing_album(&similar, Some(5)), Some(3));
    assert_eq!(match_existing_album(&similar, Some(9)), None);
    let no_artist = vec![(8, None), (9, None)];
    assert_eq!(match_existing_album(&no_artist, None), Some(9));
    assert_eq!(match_existing_album(&vec![], Some(1)), None);
}

#[test]
fn album_step_decides_grouping_and_link() {
    let mut s = summary(vec![text(TagKey::Album, "Record"), text(TagKey::TrackTotal, "10")]);
    assert_eq!(
        album_step(&s, &vec![(4, Some(2))], Some(2)),
        AlbumStep::Existing { album_id: 4, link: true }
    );
    assert_eq!(
        album_step(&s, &vec![(4, Some(3))], Some(2)),
        AlbumStep::New { grouping: Grouping::Album, link: true }
    );
    s.track_total = 1;
    assert_eq!(album_step(&s, &vec![], None), AlbumStep::New { grouping: Grouping::Single, link: false });
    assert_eq!(album_step(&s, &vec![(7, None)], None), AlbumStep::Existing { album_id: 7, link: false });
    s.album_name = String::new();
    assert_eq!(album_step(&s, &vec![(7, None)], None), AlbumStep::Skip);
}
