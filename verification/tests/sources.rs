use cloud_storage_sync::checksum::checksum_bytes;
use cloud_storage_sync::errors::Error;
use cloud_storage_sync::errors::OpSource;
use cloud_storage_sync::plan::Action;
use cloud_storage_sync::plan::DstState;
use cloud_storage_sync::plan::SourceItem;
use cloud_storage_sync::policy::ObjectMeta;
use cloud_storage_sync::sources::maybe_create_dir_action;
use cloud_storage_sync::sources::parent_dir_action;
use cloud_storage_sync::sources::DirAction;
use cloud_storage_sync::sources::GcsSource;
use cloud_storage_sync::sources::LocalSource;
use cloud_storage_sync::sources::ParentAction;
use cloud_storage_sync::sources::PathState;
use cloud_storage_sync::sources::GCS2Local;

fn meta_of(payload: &[u8]) -> ObjectMeta {
    ObjectMeta { size: payload.len() as u64, crc32c: checksum_bytes(payload) }
}

#[test]
fn local_dir_upload_counts() {
    // The scenario tree uploaded twice: three writes, then none.
    let local = LocalSource::new(false, 2);
    let items = vec![
        SourceItem::File { path: b"somefile".to_vec(), meta: meta_of(b"somefilecontents") },
        SourceItem::File { path: b"somedir/dirfile".to_vec(), meta: meta_of(b"10_bytes_") },
        SourceItem::DirMarker { path: b"empty_dir/".to_vec() },
    ];
    let mut dst = DstState::new();

    let first = local.plan_to_gcs(&items, &dst).unwrap();
    assert_eq!(first.op_count, 3);
    for (item, action) in items.iter().zip(first.actions.iter()) {
        match (item, action) {
            (SourceItem::File { path, meta }, Action::Transfer) => {
                dst.record(path.clone(), cloud_storage_sync::plan::DstNode::File { meta: *meta });
            }
            (SourceItem::DirMarker { path }, Action::CreateMarker) => {
                dst.record(path.clone(), cloud_storage_sync::plan::DstNode::Dir);
            }
            (item, action) => panic!("action {:?} does not fit item {:?}", action, item),
        }
    }

    let second = local.plan_to_gcs(&items, &dst).unwrap();
    assert_eq!(second.op_count, 0);
}

#[test]
fn download_policy_matches_upload_policy() {
    let gcs = GcsSource::new(false, 2);
    let fetcher = GCS2Local { force_overwrite: false, concurrency: 2 };
    let src = meta_of(b"abc");
    let same = meta_of(b"abc");
    let changed = meta_of(b"abd");
    assert!(!gcs.should_download(src, Some(same)));
    assert!(gcs.should_download(src, Some(changed)));
    assert!(gcs.should_download(src, None));
    assert!(!fetcher.should_download(src, Some(same)));
    assert!(fetcher.should_download(src, Some(changed)));

    let forced = GcsSource::new(true, 2);
    assert!(forced.should_download(src, Some(same)));
}

#[test]
fn upload_policy_treats_unreadable_as_missing() {
    let local = LocalSource::new(false, 2);
    let src = meta_of(b"abc");
    // A destination whose metadata could not be read is handed in as absent.
    assert!(local.should_upload_local(src, None));
    assert!(!local.should_upload_local(src, Some(src)));
}

#[test]
fn bucket_to_bucket_copies_every_listed_object() {
    let gcs = GcsSource::new(false, 4);
    let items = vec![
        SourceItem::File { path: b"a".to_vec(), meta: meta_of(b"abc") },
        SourceItem::File { path: b"b".to_vec(), meta: meta_of(b"abd") },
    ];
    assert_eq!(gcs.plan_to_gcs(&items), 2);
    assert_eq!(gcs.plan_to_gcs(&Vec::new()), 0);
}

#[test]
fn parent_dir_decisions() {
    let path = b"dst/a/b".to_vec();
    assert_eq!(parent_dir_action(false, PathState::IsDir, &path).unwrap(), ParentAction::Keep);
    assert_eq!(parent_dir_action(false, PathState::Missing, &path).unwrap(), ParentAction::CreateAll);
    assert_eq!(parent_dir_action(true, PathState::IsFile, &path).unwrap(), ParentAction::RemoveFile);
    match parent_dir_action(false, PathState::IsFile, &path) {
        Err(Error::AlreadyExists { path: p }) => assert_eq!(p, path),
        r => panic!("expected an AlreadyExists error, got {:?}", r),
    }
}

#[test]
fn dir_creation_decisions() {
    let path = b"dst/emptydir".to_vec();
    assert_eq!(maybe_create_dir_action(false, PathState::IsDir, &path).unwrap(), DirAction::Keep);
    assert_eq!(maybe_create_dir_action(false, PathState::Missing, &path).unwrap(), DirAction::Create);
    assert_eq!(maybe_create_dir_action(true, PathState::IsFile, &path).unwrap(), DirAction::ReplaceFile);
    assert!(maybe_create_dir_action(false, PathState::IsFile, &path).is_err());
}

#[test]
fn op_source_pre_wraps_operation() {
    let op = OpSource::pre(OpSource::ListPrefix);
    match op {
        OpSource::Pre(inner) => match *inner {
            OpSource::ListPrefix => {}
            other => panic!("expected the listing operation, got {:?}", other),
        },
        other => panic!("expected a preparation tag, got {:?}", other),
    }
}
