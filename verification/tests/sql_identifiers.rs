use blobrepo_factory::sql_types::{
    HgChangesetId, HgChangesetIdSql, HgManifestId, HgManifestIdSql, HgNodeHash, IsNull,
    SqlTypeError,
};

fn bytes() -> Vec<u8> {
    (1..=20).collect()
}

#[test]
fn hash_is_read_from_twenty_bytes_only() {
    let hash = HgNodeHash::from_bytes(&bytes()).unwrap();
    let mut out = vec![];
    hash.write_to(&mut out);
    assert_eq!(out, bytes());
    assert_eq!(HgNodeHash::from_bytes(&bytes()[..19]), Err(SqlTypeError::InvalidLength(19)));
    assert_eq!(HgNodeHash::from_bytes(&[0u8; 21]), Err(SqlTypeError::InvalidLength(21)));
    assert_eq!(HgNodeHash::from_bytes(&[]), Err(SqlTypeError::InvalidLength(0)));
}

#[test]
fn changeset_id_round_trips_through_sql() {
    let id = HgChangesetId::new(HgNodeHash::from_bytes(&bytes()).unwrap());
    let mut out = vec![0xffu8];
    assert_eq!(id.to_sql(&mut out), IsNull::No);
    assert_eq!(out.len(), 21);
    assert_eq!(&out[1..], &bytes()[..]);
    assert_eq!(HgChangesetId::from_sql(Some(&out[1..])), Ok(id));
    assert_eq!(id.as_nodehash(), &HgNodeHash::from_bytes(&bytes()).unwrap());
}

#[test]
fn manifest_id_round_trips_through_sql() {
    let id = HgManifestId::new(HgNodeHash::from_bytes(&[7u8; 20]).unwrap());
    let mut out = vec![];
    assert_eq!(id.to_sql(&mut out), IsNull::No);
    assert_eq!(out, vec![7u8; 20]);
    assert_eq!(HgManifestId::from_sql(Some(&out)), Ok(id));
    assert_eq!(id.as_nodehash(), &HgNodeHash::from_bytes(&[7u8; 20]).unwrap());
}

#[test]
fn null_and_wrong_length_are_rejected() {
    assert_eq!(HgChangesetId::from_sql(None), Err(SqlTypeError::UnexpectedNull));
    assert_eq!(HgManifestId::from_sql(None), Err(SqlTypeError::UnexpectedNull));
    assert_eq!(HgChangesetId::from_sql(Some(&[1, 2, 3])), Err(SqlTypeError::InvalidLength(3)));
    assert_eq!(HgManifestId::from_sql(Some(&[0u8; 40])), Err(SqlTypeError::InvalidLength(40)));
}

#[test]
fn sql_type_markers_are_plain_values() {
    assert_eq!(HgChangesetIdSql, HgChangesetIdSql);
    assert_eq!(HgManifestIdSql, HgManifestIdSql);
}
