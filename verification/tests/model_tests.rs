use fs_proto::cluster::ClusterManager;
use fs_proto::dir::SubDirectory;
use fs_proto::errors::{ClusterError, VolumeError};
use fs_proto::ops::ServerType;
use fs_proto::status::{ClusterStatus, ServerStatus};
use fs_proto::volume::VolumeRegistry;

#[test]
fn fresh_directory_holds_exactly_dot_and_dotdot() {
    let d = SubDirectory::new();
    assert_eq!(d.len(), 2);
    assert_eq!(d.entry_at(0).name, ".");
    assert_eq!(d.entry_at(0).kind, 'd');
    assert_eq!(d.entry_at(1).name, "..");
    assert_eq!(d.entry_at(1).kind, 'd');
}

#[test]
fn add_then_remove_restores_the_prior_set() {
    let mut d = SubDirectory::new();
    d.add_file("a.txt".to_string());
    assert_eq!(d.len(), 3);
    d.delete_file("a.txt".to_string());
    assert_eq!(d.len(), 2);
    assert_eq!(d.entry_at(0).name, ".");
    assert_eq!(d.entry_at(1).name, "..");
}

#[test]
fn removing_an_absent_name_is_a_noop() {
    let mut d = SubDirectory::new();
    d.add_dir("keep".to_string());
    d.delete_file("nothere".to_string());
    d.delete_dir("alsonothere".to_string());
    assert_eq!(d.len(), 3);
    assert_eq!(d.entry_at(2).name, "keep");
    assert_eq!(d.entry_at(2).kind, 'd');
}

#[test]
fn adding_an_existing_name_overwrites_its_tag() {
    let mut d = SubDirectory::new();
    d.add_file("x".to_string());
    assert_eq!(d.len(), 3);
    d.add_dir("x".to_string());
    assert_eq!(d.len(), 3);
    assert_eq!(d.entry_at(2).name, "x");
    assert_eq!(d.entry_at(2).kind, 'd');
}

#[test]
fn enumeration_is_sorted_by_name() {
    let mut d = SubDirectory::new();
    d.add_file("zebra".to_string());
    d.add_file("apple".to_string());
    d.add_dir("mango".to_string());
    let names: Vec<&str> = (0..d.len()).map(|i| d.entry_at(i).name.as_str()).collect();
    assert_eq!(names, vec![".", "..", "apple", "mango", "zebra"]);
}

#[test]
fn duplicate_volume_name_is_rejected() {
    let mut reg = VolumeRegistry::new();
    assert_eq!(reg.create_volume("v1".to_string(), 100), Ok(()));
    assert_eq!(
        reg.create_volume("v1".to_string(), 50),
        Err(VolumeError::DuplicateName)
    );
    assert_eq!(reg.len(), 1);
    assert_eq!(reg.create_volume("v2".to_string(), 0), Err(VolumeError::ZeroSize));
    assert_eq!(reg.len(), 1);
}

#[test]
fn usage_beyond_capacity_is_rejected() {
    let mut reg = VolumeRegistry::new();
    reg.create_volume("v1".to_string(), 100).unwrap();
    assert_eq!(reg.update_usage(&"v1".to_string(), 100), Ok(()));
    assert_eq!(reg.volume_at(0).used_size, 100);
    assert_eq!(
        reg.update_usage(&"v1".to_string(), 101),
        Err(VolumeError::OverCapacity)
    );
    assert_eq!(reg.volume_at(0).used_size, 100);
    assert_eq!(
        reg.update_usage(&"v9".to_string(), 1),
        Err(VolumeError::NotFound)
    );
}

#[test]
fn deleting_volumes_checks_presence_and_use() {
    let mut reg = VolumeRegistry::new();
    reg.create_volume("v1".to_string(), 100).unwrap();
    assert_eq!(reg.delete_volume(&"v2".to_string()), Err(VolumeError::NotFound));
    reg.update_usage(&"v1".to_string(), 10).unwrap();
    assert_eq!(reg.delete_volume(&"v1".to_string()), Err(VolumeError::InUse));
    reg.update_usage(&"v1".to_string(), 0).unwrap();
    assert_eq!(reg.delete_volume(&"v1".to_string()), Ok(()));
    assert_eq!(reg.len(), 0);
}

#[test]
fn server_status_moves_strictly_forward() {
    let chain = [
        ServerStatus::Initializing,
        ServerStatus::PreTransfer,
        ServerStatus::Transferring,
        ServerStatus::PreFinish,
        ServerStatus::Finishing,
        ServerStatus::Finished,
    ];
    for w in chain.windows(2) {
        assert_eq!(w[0].apply_update(w[1]), Ok(w[1]));
    }
    // Skipping, regressing and staying put are all rejected.
    assert_eq!(
        ServerStatus::Initializing.apply_update(ServerStatus::Transferring),
        Err(ClusterError::InvalidTransition)
    );
    assert_eq!(
        ServerStatus::Transferring.apply_update(ServerStatus::PreTransfer),
        Err(ClusterError::InvalidTransition)
    );
    assert_eq!(
        ServerStatus::Transferring.apply_update(ServerStatus::Transferring),
        Err(ClusterError::InvalidTransition)
    );
    assert_eq!(
        ServerStatus::Finished.apply_update(ServerStatus::Initializing),
        Err(ClusterError::InvalidTransition)
    );
}

fn two_server_cluster() -> ClusterManager {
    let mut m = ClusterManager::new();
    m.bootstrap(vec![("s1".to_string(), 1), ("s2".to_string(), 1)]).unwrap();
    m
}

fn step_all(m: &mut ClusterManager, addrs: &[&str], status: ServerStatus) {
    for a in addrs {
        m.update_server_status(&a.to_string(), status).unwrap();
    }
}

#[test]
fn full_add_cycle_returns_to_idle_with_the_new_ring() {
    let mut m = two_server_cluster();
    assert_eq!(m.get_cluster_status(), ClusterStatus::Idle);
    m.add_nodes(vec![("s3".to_string(), 2)]).unwrap();
    assert_eq!(m.get_cluster_status(), ClusterStatus::NodesStarting);

    // A second membership change is rejected while one is in flight.
    assert_eq!(
        m.add_nodes(vec![("s4".to_string(), 1)]),
        Err(ClusterError::NotIdle)
    );
    assert_eq!(
        m.remove_nodes(vec!["s1".to_string()]),
        Err(ClusterError::NotIdle)
    );

    let expected_new: Vec<(String, usize)> =
        vec![("s1".to_string(), 1), ("s2".to_string(), 1), ("s3".to_string(), 2)];
    assert_eq!(m.get_new_hash_ring().unwrap(), &expected_new);
    // The routing ring is still the old one until the cycle completes.
    assert_eq!(
        m.get_hash_ring(),
        &vec![("s1".to_string(), 1), ("s2".to_string(), 1)]
    );

    m.sync_new_hash_ring().unwrap();
    assert_eq!(m.get_cluster_status(), ClusterStatus::SyncNewHashRing);

    let addrs = ["s1", "s2", "s3"];
    step_all(&mut m, &addrs, ServerStatus::PreTransfer);
    assert_eq!(m.get_cluster_status(), ClusterStatus::PreTransfer);
    step_all(&mut m, &addrs, ServerStatus::Transferring);
    assert_eq!(m.get_cluster_status(), ClusterStatus::Transferring);
    step_all(&mut m, &addrs, ServerStatus::PreFinish);
    assert_eq!(m.get_cluster_status(), ClusterStatus::PreFinish);
    step_all(&mut m, &addrs, ServerStatus::Finishing);
    assert_eq!(m.get_cluster_status(), ClusterStatus::Finishing);
    step_all(&mut m, &addrs, ServerStatus::Finished);

    // All servers report Finished: the cluster is idle again and the ring
    // returned by the current-ring query is the committed new one.
    assert_eq!(m.get_cluster_status(), ClusterStatus::Idle);
    assert_eq!(m.get_hash_ring(), &expected_new);
    assert_eq!(m.get_new_hash_ring(), Err(ClusterError::NotRebalancing));
    assert_eq!(m.server_count(), 3);
    for i in 0..m.server_count() {
        assert_eq!(m.server_at(i).ty, ServerType::Running);
        assert_eq!(m.server_at(i).status, ServerStatus::Finished);
    }
}

#[test]
fn full_remove_cycle_drops_the_leaving_node() {
    let mut m = two_server_cluster();
    assert_eq!(
        m.remove_nodes(vec!["nosuch".to_string()]),
        Err(ClusterError::UnknownServer)
    );
    m.remove_nodes(vec!["s2".to_string()]).unwrap();
    assert_eq!(m.get_new_hash_ring().unwrap(), &vec![("s1".to_string(), 1)]);
    assert_eq!(m.server_at(1).ty, ServerType::Remove);
    m.sync_new_hash_ring().unwrap();
    let addrs = ["s1", "s2"];
    step_all(&mut m, &addrs, ServerStatus::PreTransfer);
    step_all(&mut m, &addrs, ServerStatus::Transferring);
    step_all(&mut m, &addrs, ServerStatus::PreFinish);
    step_all(&mut m, &addrs, ServerStatus::Finishing);
    step_all(&mut m, &addrs, ServerStatus::Finished);
    assert_eq!(m.get_cluster_status(), ClusterStatus::Idle);
    assert_eq!(m.server_count(), 1);
    assert_eq!(m.server_at(0).address, "s1");
    assert_eq!(m.get_hash_ring(), &vec![("s1".to_string(), 1)]);
}

#[test]
fn heartbeat_timeout_during_transfer_forces_status_error() {
    let mut m = two_server_cluster();
    m.add_nodes(vec![("s3".to_string(), 1)]).unwrap();
    m.sync_new_hash_ring().unwrap();
    let addrs = ["s1", "s2", "s3"];
    step_all(&mut m, &addrs, ServerStatus::PreTransfer);
    step_all(&mut m, &addrs, ServerStatus::Transferring);
    assert_eq!(m.get_cluster_status(), ClusterStatus::Transferring);

    m.escalate_failure(&"s2".to_string()).unwrap();
    assert_eq!(m.get_cluster_status(), ClusterStatus::StatusError);

    // Until the administrative reset, membership changes stay rejected.
    assert_eq!(
        m.add_nodes(vec![("s4".to_string(), 1)]),
        Err(ClusterError::NotIdle)
    );
    assert_eq!(
        m.remove_nodes(vec!["s1".to_string()]),
        Err(ClusterError::NotIdle)
    );
    assert_eq!(
        m.update_server_status(&"s1".to_string(), ServerStatus::PreFinish),
        Err(ClusterError::NotRebalancing)
    );

    m.reset().unwrap();
    assert_eq!(m.get_cluster_status(), ClusterStatus::Idle);
    for i in 0..m.server_count() {
        assert_eq!(m.server_at(i).ty, ServerType::Running);
        assert_eq!(m.server_at(i).status, ServerStatus::Finished);
    }
    assert!(m.add_nodes(vec![("s4".to_string(), 1)]).is_ok());
}

#[test]
fn out_of_order_report_forces_status_error() {
    let mut m = two_server_cluster();
    m.add_nodes(vec![("s3".to_string(), 1)]).unwrap();
    m.sync_new_hash_ring().unwrap();
    // s1 tries to skip straight to Transferring.
    assert_eq!(
        m.update_server_status(&"s1".to_string(), ServerStatus::Transferring),
        Err(ClusterError::InvalidTransition)
    );
    assert_eq!(m.get_cluster_status(), ClusterStatus::StatusError);
    assert_eq!(m.reset(), Ok(()));
    // Reset is only for the error state.
    assert_eq!(m.reset(), Err(ClusterError::NotInErrorState));
}

#[test]
fn bootstrap_only_from_the_fresh_manager() {
    let mut m = two_server_cluster();
    assert_eq!(
        m.bootstrap(vec![("x".to_string(), 1)]),
        Err(ClusterError::InvalidTransition)
    );
    assert_eq!(m.server_count(), 2);
    let fresh = ClusterManager::new();
    assert_eq!(fresh.get_cluster_status(), ClusterStatus::Initializing);
    assert_eq!(fresh.server_count(), 0);
}

#[test]
fn updates_for_unknown_servers_are_rejected() {
    let mut m = two_server_cluster();
    m.add_nodes(vec![]).unwrap();
    assert_eq!(
        m.update_server_status(&"ghost".to_string(), ServerStatus::PreTransfer),
        Err(ClusterError::UnknownServer)
    );
    assert_eq!(
        m.escalate_failure(&"ghost".to_string()),
        Err(ClusterError::UnknownServer)
    );
    // Outside a rebalance neither call is meaningful.
    let mut idle = two_server_cluster();
    assert_eq!(
        idle.update_server_status(&"s1".to_string(), ServerStatus::PreTransfer),
        Err(ClusterError::NotRebalancing)
    );
    assert_eq!(
        idle.escalate_failure(&"s1".to_string()),
        Err(ClusterError::NotRebalancing)
    );
}
