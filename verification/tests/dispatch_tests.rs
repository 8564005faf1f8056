use olist_cdn_preheat::dispatch::{
    pick_busiest, plan_retry, retry_rejected_error, retry_send_failed_error, PreheatQueue,
    RetryPlan, SiteQueues, SpawnPacer,
};
use olist_cdn_preheat::models::{AppError, FileItem};

fn f(path: &str, site: &str) -> FileItem {
    FileItem {
        id: path.to_string(),
        site_id: site.to_string(),
        path: path.to_string(),
        name: path.to_string(),
        size: 1,
        is_dir: false,
        modified: None,
        retries: 0,
    }
}

fn msg(e: AppError) -> String {
    match e {
        AppError::Api(m) | AppError::Network(m) => m,
    }
}

#[test]
fn pacer_allows_one_start_per_second() {
    let mut p = SpawnPacer::new();
    assert!(p.allows(0));
    p.mark_spawned(5000);
    assert!(!p.allows(5999));
    assert!(p.allows(6000));
    p.note_idle(100);
    p.note_idle(200);
    assert_eq!(p.idle_since_ms, Some(100));
    assert!(!p.idle_expired(2099, true));
    assert!(p.idle_expired(2100, true));
    assert!(!p.idle_expired(2100, false));
    p.note_busy();
    assert!(!p.idle_expired(9999, true));
}

#[test]
fn single_site_queue() {
    let mut q = PreheatQueue::new(vec![f("/a", ""), f("/b", "")]);
    assert_eq!(q.next_to_spawn(0, 1, false, false, 0).unwrap().path, "/a");
    q.pacer.mark_spawned(0);
    assert!(q.next_to_spawn(0, 1, false, false, 500).is_none());
    assert!(q.next_to_spawn(1, 1, false, false, 5000).is_none());
    assert!(q.next_to_spawn(0, 1, true, false, 5000).is_none());
    assert!(q.next_to_spawn(0, 1, false, true, 5000).is_none());
    q.inject(f("/retry", ""));
    assert_eq!(q.pending.len(), 2);
    let g = q.next_to_spawn(0, 1, false, false, 5000).unwrap();
    assert_eq!(g.path, "/retry");
    q.put_back(g);
    assert_eq!(q.pending[0].path, "/retry");
}

#[test]
fn multi_site_queues_route_by_site() {
    let ids = vec!["s1".to_string(), "s2".to_string(), "s1".to_string()];
    let files = vec![f("/a", "s2"), f("/b", "s1"), f("/c", "s2")];
    let q = SiteQueues::build(&ids, &files).unwrap();
    assert_eq!(q.ids, vec!["s1".to_string(), "s2".to_string()]);
    assert_eq!(q.queues[0].len(), 1);
    assert_eq!(q.queues[1].len(), 2);
    assert_eq!(q.queues[1][0].path, "/a");
    assert_eq!(q.queues[1][1].path, "/c");
    assert_eq!(q.default_site, None);
}

#[test]
fn single_site_list_adopts_files_without_site() {
    let ids = vec!["only".to_string()];
    let q = SiteQueues::build(&ids, &vec![f("/a", "")]).unwrap();
    assert_eq!(q.queues[0][0].site_id, "only");
}

#[test]
fn multi_site_queue_errors() {
    let ids = vec!["s1".to_string(), "s2".to_string()];
    let e = SiteQueues::build(&ids, &vec![f("/a", "s1"), f("/b", "")]).err().unwrap();
    assert_eq!(msg(e), "多站点运行需要每个文件都带有 siteId");
    let e = SiteQueues::build(&ids, &vec![f("/a", "s9"), f("/b", "")]).err().unwrap();
    assert_eq!(msg(e), "未知 siteId: s9");
}

#[test]
fn busiest_site_goes_first() {
    assert_eq!(pick_busiest(&vec![2, 5, 5, 1], &vec![false, false, false, false]), Some(1));
    assert_eq!(pick_busiest(&vec![2, 5, 5, 1], &vec![false, true, false, false]), Some(2));
    assert_eq!(pick_busiest(&vec![0, 3], &vec![false, true]), None);
    assert_eq!(pick_busiest(&vec![], &vec![]), None);
}

#[test]
fn multi_site_spawning() {
    let ids = vec!["s1".to_string(), "s2".to_string()];
    let files = vec![f("/a", "s1"), f("/b", "s2"), f("/c", "s2")];
    let mut q = SiteQueues::build(&ids, &files).unwrap();
    assert!(q.has_pending());
    let (k, file) = q.next_to_spawn(0, 4, &vec![false, false], false, 0).unwrap();
    assert_eq!((k, file.path.as_str()), (1, "/b"));
    q.pacer.mark_spawned(0);
    assert!(q.next_to_spawn(0, 4, &vec![false, false], false, 10).is_none());
    let (k, file) = q.next_to_spawn(0, 4, &vec![false, true], false, 1000).unwrap();
    assert_eq!((k, file.path.as_str()), (0, "/a"));
    q.put_back(k, file);
    assert_eq!(q.queues[0].len(), 1);
    assert!(q.inject(f("/r", "s2")));
    assert_eq!(q.queues[1][0].path, "/r");
    assert!(!q.inject(f("/r", "unknown")));
    assert!(!q.inject(f("/r", "")));
}

#[test]
fn retry_plans() {
    assert_eq!(plan_retry(true, true, true), RetryPlan::Enqueue);
    assert_eq!(plan_retry(false, true, true), RetryPlan::RestartMulti);
    assert_eq!(plan_retry(false, false, true), RetryPlan::RestartSingle);
    assert_eq!(plan_retry(false, false, false), RetryPlan::Reject);
    assert!(msg(retry_rejected_error()).starts_with("当前没有运行中的任务"));
    assert!(msg(retry_send_failed_error()).starts_with("重试任务发送失败"));
}

#[test]
fn take_and_put_back_restores_queue() {
    let mut q = PreheatQueue::new(vec![f("/a", ""), f("/b", ""), f("/c", "")]);
    let g = q.next_to_spawn(0, 2, false, false, 0).unwrap();
    assert_eq!(q.pending.len(), 2);
    q.put_back(g);
    let paths: Vec<&str> = q.pending.iter().map(|x| x.path.as_str()).collect();
    assert_eq!(paths, vec!["/a", "/b", "/c"]);
}

#[test]
fn multi_site_run_without_sites_has_nothing_to_do() {
    assert!(SiteQueues::plan(&vec![], &vec![f("/a", "s1")]).unwrap().is_none());
    let q = SiteQueues::plan(&vec!["s1".to_string()], &vec![f("/a", "s1")]).unwrap().unwrap();
    assert_eq!(q.queues[0].len(), 1);
    assert!(SiteQueues::plan(&vec!["s1".to_string()], &vec![f("/a", "s2")]).is_err());
}

#[test]
fn paced_starts_are_a_second_apart() {
    let mut q = PreheatQueue::new(vec![f("/a", ""), f("/b", ""), f("/c", "")]);
    let mut starts = Vec::new();
    let mut now = 0;
    while starts.len() < 3 {
        if let Some(_) = q.next_to_spawn(0, 8, false, false, now) {
            q.pacer.mark_spawned(now);
            starts.push(now);
        }
        now += 250;
    }
    assert_eq!(starts, vec![0, 1000, 2000]);
}
