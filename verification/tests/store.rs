use pristimer::session::{FinishOutcome, SessionKind, SessionState};
use pristimer::store::{
    finish_write, open_retry, plan_recovery, plan_recovery_step, recovery_write, session_row_from_raw,
    total_or_zero, OpenRetry, OpenSessionRow, RawSessionRow, RecoveryStep, StoreWrite, Store,
    StoreError, MAX_RESUME_GAP_MS,
};

const T0: u64 = 1_700_000_000_000; // 2023-11-14 22:13:20 UTC
const SEC: u64 = 1_000;
const MIN: u64 = 60 * SEC;
const HOUR: u64 = 60 * MIN;

fn store() -> Store {
    Store::open_in_memory().expect("内存库应当总能打开")
}

#[test]
fn finished_session_lands_in_stats() {
    let mut store = store();
    let id = store
        .begin_session(SessionKind::Stopwatch, Some("数学"), T0, None)
        .unwrap();

    // 模拟：跑 5 分钟 → 暂停 → 隔 3 分钟继续 → 又跑 5 分钟 → 手动结束
    store.pause_session(id, T0 + 5 * MIN, 5 * MIN).unwrap();
    store.resume_session(id, T0 + 8 * MIN, 5 * MIN).unwrap();
    let outcome = store
        .finish_session(id, T0 + 13 * MIN, 10 * MIN, false)
        .unwrap();

    assert_eq!(outcome, FinishOutcome::Saved);
    assert_eq!(store.total_ms().unwrap(), (10 * MIN) as i64);
    assert_eq!(store.finished_count().unwrap(), 1);
}

#[test]
fn short_session_is_discarded() {
    let mut store = store();
    let id = store
        .begin_session(SessionKind::Stopwatch, None, T0, None)
        .unwrap();

    // 误触「开始」后 3 秒就重置 —— 不该留下记录污染统计
    let outcome = store
        .finish_session(id, T0 + 3 * SEC, 3 * SEC, false)
        .unwrap();

    assert_eq!(outcome, FinishOutcome::Discarded);
    assert_eq!(store.finished_count().unwrap(), 0);
    assert_eq!(store.total_ms().unwrap(), 0);
}

#[test]
fn running_session_is_resumed_with_recomputed_elapsed() {
    let mut store = store();
    store
        .begin_session(SessionKind::Stopwatch, None, T0, None)
        .unwrap();

    // 应用在跑了 5 分钟后被杀，重新启动
    let recovery = store.recover_on_start(T0 + 5 * MIN).unwrap();

    let resumed = recovery.resume.expect("应当有一条可接续的会话");
    assert_eq!(resumed.elapsed_ms, 5 * MIN);
    assert_eq!(resumed.age_ms, 5 * MIN);
    assert_eq!(recovery.settled, 0);
}

#[test]
fn paused_session_resumes_without_counting_the_gap() {
    let mut store = store();
    let id = store
        .begin_session(SessionKind::Stopwatch, None, T0, None)
        .unwrap();
    store.pause_session(id, T0 + 5 * MIN, 5 * MIN).unwrap();

    // 暂停后又过了 40 分钟才重新打开应用：这 40 分钟不是专注时间
    let recovery = store.recover_on_start(T0 + 45 * MIN).unwrap();

    assert_eq!(recovery.resume.unwrap().elapsed_ms, 5 * MIN);
}

#[test]
fn countdown_reaching_limit_while_closed_is_settled() {
    let mut store = store();
    store
        .begin_session(SessionKind::Countdown, None, T0, Some(25 * MIN))
        .unwrap();

    // 关掉应用两小时 —— 倒计时早已到点
    let recovery = store.recover_on_start(T0 + 2 * HOUR).unwrap();

    assert!(recovery.resume.is_none(), "已到点的倒计时不该被接续");
    assert_eq!(recovery.settled, 1);
    // 封顶到 25 分钟，而不是把两小时全记进去
    assert_eq!(store.total_ms().unwrap(), (25 * MIN) as i64);
}

#[test]
fn stale_session_is_settled_instead_of_resumed() {
    let mut store = store();
    store
        .begin_session(SessionKind::Stopwatch, None, T0, None)
        .unwrap();

    let beyond = T0 + MAX_RESUME_GAP_MS as u64 + MIN;
    let recovery = store.recover_on_start(beyond).unwrap();

    assert!(recovery.resume.is_none(), "超过接续上限的会话应当被结算");
    assert_eq!(recovery.settled, 1);
    assert_eq!(store.total_ms().unwrap(), (MAX_RESUME_GAP_MS as u64 + MIN) as i64);
}

#[test]
fn only_the_newest_unfinished_session_is_resumed() {
    let mut store = store();
    store
        .begin_session(SessionKind::Stopwatch, None, T0, None)
        .unwrap();
    store
        .begin_session(SessionKind::Stopwatch, None, T0 + 10 * MIN, None)
        .unwrap();

    let recovery = store.recover_on_start(T0 + 20 * MIN).unwrap();

    let resumed = recovery.resume.unwrap();
    assert_eq!(resumed.started_at, (T0 + 10 * MIN) as i64);
    assert_eq!(resumed.elapsed_ms, 10 * MIN);
    assert_eq!(recovery.settled, 1);
}

#[test]
fn recovery_is_idempotent_across_restarts() {
    let mut store = store();
    store
        .begin_session(SessionKind::Stopwatch, None, T0, None)
        .unwrap();

    // 第一次启动：会话已经跑了 5 分钟，被恢复出来
    let first = store.recover_on_start(T0 + 5 * MIN).unwrap();
    assert_eq!(first.resume.unwrap().elapsed_ms, 5 * MIN);

    // 用户没管它就直接关掉应用；两小时后再打开。
    // 若恢复时不把时长写回库，这里会算出 2 小时「专注」。
    let second = store.recover_on_start(T0 + 2 * HOUR + 5 * MIN).unwrap();
    assert_eq!(
        second.resume.unwrap().elapsed_ms,
        5 * MIN,
        "应用关闭期间的时间不该被累加进专注时长"
    );
}

#[test]
fn resume_records_elapsed_so_a_later_crash_does_not_lose_it() {
    let mut store = store();
    store
        .begin_session(SessionKind::Stopwatch, None, T0, None)
        .unwrap();

    // 恢复出 5 分钟，用户按下「继续」
    let recovered = store.recover_on_start(T0 + 5 * MIN).unwrap().resume.unwrap();
    store
        .resume_session(recovered.id, T0 + 5 * MIN, recovered.elapsed_ms)
        .unwrap();

    // 又跑了 10 分钟，应用再次被杀
    let again = store
        .recover_on_start(T0 + 15 * MIN)
        .unwrap()
        .resume
        .unwrap();

    // 5 + 10 = 15，而不是只剩第二次的 10 分钟
    assert_eq!(again.elapsed_ms, 15 * MIN);
    assert_eq!(again.id, recovered.id, "接续的必须是同一条记录");
}

#[test]
fn unfinished_sessions_are_excluded_from_stats() {
    let mut store = store();
    let id = store
        .begin_session(SessionKind::Stopwatch, None, T0, None)
        .unwrap();
    store.pause_session(id, T0 + 5 * MIN, 5 * MIN).unwrap();

    // 尚未结算的会话不进统计 —— 否则「今日专注」会随着秒表跳动
    assert_eq!(store.total_ms().unwrap(), 0);
    assert_eq!(store.finished_count().unwrap(), 0);
}

#[test]
fn daily_stats_group_by_local_day() {
    let mut store = store();

    // 同一自然日的两条
    let a = store
        .begin_session(SessionKind::Stopwatch, None, T0, None)
        .unwrap();
    store.finish_session(a, T0 + MIN, 5 * MIN, false).unwrap();
    let b = store
        .begin_session(SessionKind::Stopwatch, None, T0 + 60 * SEC, None)
        .unwrap();
    store.finish_session(b, T0 + MIN, 7 * MIN, true).unwrap();

    // 30 小时之后：无论本地时区如何，必然落在另一个自然日
    // （一个自然日最多 25 小时，30 > 25）
    let t2 = T0 + 30 * HOUR;
    let c = store
        .begin_session(SessionKind::Countdown, None, t2, Some(25 * MIN))
        .unwrap();
    store.finish_session(c, t2 + 25 * MIN, 25 * MIN, true).unwrap();

    let stats = store.daily_stats("1900-01-01", "2999-12-31").unwrap();
    assert_eq!(stats.len(), 2, "应当聚合成两天");

    let first = &stats[0];
    assert_eq!(first.session_count, 2);
    assert_eq!(first.total_ms, (12 * MIN) as i64);
    assert_eq!(first.completed_count, 1);

    let second = &stats[1];
    assert_eq!(second.session_count, 1);
    assert_eq!(second.total_ms, (25 * MIN) as i64);
    assert_eq!(second.completed_count, 1);

    assert_ne!(first.day, second.day);
    assert!(first.day < second.day, "日期字符串应当按字典序递增");
}

#[test]
fn daily_stats_respects_the_range() {
    let mut store = store();
    let t2 = T0 + 30 * HOUR;
    for started in [T0, t2] {
        let id = store
            .begin_session(SessionKind::Stopwatch, None, started, None)
            .unwrap();
        store.finish_session(id, started + 5 * MIN, 5 * MIN, false).unwrap();
    }

    let all = store.daily_stats("1900-01-01", "2999-12-31").unwrap();
    assert_eq!(all.len(), 2);

    // 只查第一天，应当只拿到一条
    let only_first = store.daily_stats("1900-01-01", &all[0].day).unwrap();
    assert_eq!(only_first.len(), 1);
    assert_eq!(only_first[0].day, all[0].day);
}



#[test]
fn settings_round_trip_and_overwrite() {
    let mut store = Store::open_in_memory().unwrap();

    // 不存在的键返回 None，而不是报错
    assert_eq!(store.get_setting("pomodoro").unwrap(), None);

    store
        .set_setting("pomodoro", r#"{"focus_ms":1500000}"#)
        .unwrap();
    assert_eq!(
        store.get_setting("pomodoro").unwrap().as_deref(),
        Some(r#"{"focus_ms":1500000}"#)
    );

    // 同 key 再写 = 覆盖
    store.set_setting("pomodoro", "{}").unwrap();
    assert_eq!(store.get_setting("pomodoro").unwrap().as_deref(), Some("{}"));
}


#[test]
fn finished_sessions_returns_rows_in_start_order() {

    let mut store = Store::open_in_memory().unwrap();
    // 故意乱序写入：第二条开始得更晚但先结算
    let late = store
        .begin_session(SessionKind::Stopwatch, Some("英语"), 3 * MIN, None)
        .unwrap();
    let early = store
        .begin_session(SessionKind::Countdown, None, MIN, Some(25 * MIN))
        .unwrap();
    store
        .finish_session(early, 2 * MIN, 25 * MIN, true)
        .unwrap();
    store
        .finish_session(late, 4 * MIN, MIN, false)
        .unwrap();

    // 未结算的会话不出现在明细里
    let open = store
        .begin_session(SessionKind::Stopwatch, None, 5 * MIN, None)
        .unwrap();
    store.pause_session(open, 5 * MIN + 3_000, 3_000).unwrap();

    let rows = store.finished_sessions().unwrap();
    assert_eq!(rows.len(), 2);
    assert_eq!(rows[0].id, early);
    assert_eq!(rows[0].kind, SessionKind::Countdown);
    assert_eq!(rows[0].state, SessionState::Finished);
    assert_eq!(rows[0].started_at, MIN as i64);
    assert_eq!(rows[0].elapsed_ms, (25 * MIN) as i64);
    assert!(rows[0].completed);
    assert_eq!(rows[1].id, late);
    assert_eq!(rows[1].kind, SessionKind::Stopwatch);
    assert_eq!(rows[1].tag.as_deref(), Some("英语"));
    assert!(!rows[1].completed);
}

#[test]
fn tag_totals_group_and_rank_by_duration() {
    let mut store = Store::open_in_memory().unwrap();
    let tag = |store: &mut Store, name: &str| {
        store
            .begin_session(SessionKind::Countdown, Some(name), MIN, None)
            .unwrap()
    };
    let untagged = store
        .begin_session(SessionKind::Stopwatch, None, MIN, None)
        .unwrap();

    let math = tag(&mut store, "高数");
    let english = tag(&mut store, "英语");
    store.finish_session(math, 2 * MIN, 25 * MIN, true).unwrap();
    store
        .finish_session(english, 3 * MIN, 10 * MIN, false)
        .unwrap();
    store
        .finish_session(untagged, 4 * MIN, 5 * MIN, false)
        .unwrap();
    // 第二个高数会话并入同一行
    let math2 = tag(&mut store, "高数");
    store.finish_session(math2, 6 * MIN, 15 * MIN, true).unwrap();

    // 短于 MIN_SESSION_MS 的会话被丢弃，不进统计
    let noise = tag(&mut store, "线代");
    store.finish_session(noise, 7 * MIN, 3_000, false).unwrap();

    // 宽范围覆盖全部（1970 年的 epoch 毫秒本地日，负偏移时区也不越界）
    let totals = store
        .tag_totals_between("1969-12-31", "1971-12-31")
        .unwrap();
    assert_eq!(totals.len(), 3, "丢弃的 3 秒会话不该出现");
    assert_eq!(totals[0].tag, "高数");
    assert_eq!(totals[0].total_ms, (40 * MIN) as i64);
    assert_eq!(totals[0].session_count, 2);
    assert_eq!(totals[1].tag, "英语");
    assert_eq!(totals[2].tag, "", "无标签归入空字符串");
    assert_eq!(totals[2].total_ms, (5 * MIN) as i64);
}

#[test]
fn tag_totals_respects_the_range() {
    let mut store = Store::open_in_memory().unwrap();
    // 早会话：epoch 后 1 分钟（1970-01-01，任何时区都在宽范围里）
    let early = store
        .begin_session(SessionKind::Countdown, Some("高数"), MIN, None)
        .unwrap();
    store
        .finish_session(early, 2 * MIN, 20 * MIN, true)
        .unwrap();
    // 晚会话：epoch 后 30 天（1970-01-31 或 01-30，取决于时区偏移方向）
    let late = store
        .begin_session(
            SessionKind::Countdown,
            Some("英语"),
            30 * 24 * 60 * MIN,
            None,
        )
        .unwrap();
    store
        .finish_session(late, 30 * 24 * 60 * MIN + MIN, 10 * MIN, true)
        .unwrap();

    // 只取第一天的范围：只有早会话命中
    let day1 = store
        .tag_totals_between("1969-12-30", "1970-01-02")
        .unwrap();
    assert_eq!(day1.len(), 1);
    assert_eq!(day1[0].tag, "高数");

    // 只取月末的范围：只有晚会话命中
    let month_end = store
        .tag_totals_between("1970-01-20", "1970-02-05")
        .unwrap();
    assert_eq!(month_end.len(), 1);
    assert_eq!(month_end[0].tag, "英语");

    // 空范围：谁都不命中
    assert!(
        store
            .tag_totals_between("2000-01-01", "2000-01-02")
            .unwrap()
            .is_empty()
    );
}

#[test]
fn rename_tag_rewrites_and_counts() {
    let mut store = Store::open_in_memory().unwrap();
    let s1 = store
        .begin_session(SessionKind::Stopwatch, Some("高数a"), MIN, None)
        .unwrap();
    store
        .finish_session(s1, 2 * MIN, 15 * MIN, true)
        .unwrap();
    let s2 = store
        .begin_session(SessionKind::Stopwatch, Some("高数a"), 3 * MIN, None)
        .unwrap();
    store.finish_session(s2, 4 * MIN, 5 * MIN, false).unwrap();
    let other = store
        .begin_session(SessionKind::Stopwatch, Some("英语"), 5 * MIN, None)
        .unwrap();
    store.finish_session(other, 6 * MIN, 8 * MIN, true).unwrap();

    // 重命名「高数a」→「高数」：改写 2 行，其他标签不动
    let changed = store.rename_tag("高数a", Some("高数")).unwrap();
    assert_eq!(changed, 2);
    let totals = store.tag_totals_between("1970-01-01", "2999-12-31").unwrap();
    assert_eq!(totals.len(), 2);
    let math = totals.iter().find(|t| t.tag == "高数").unwrap();
    assert_eq!(math.session_count, 2);
    assert!(totals.iter().all(|t| t.tag != "高数a"));
    assert!(totals.iter().any(|t| t.tag == "英语"));

    // 再改一次：没有可改的行，返回 0（幂等）
    assert_eq!(store.rename_tag("高数a", Some("高数")).unwrap(), 0);
}

#[test]
fn rename_tag_merges_into_existing() {
    let mut store = Store::open_in_memory().unwrap();
    let a = store
        .begin_session(SessionKind::Stopwatch, Some("线代a"), MIN, None)
        .unwrap();
    store.finish_session(a, 2 * MIN, 12 * MIN, true).unwrap();
    let b = store
        .begin_session(SessionKind::Stopwatch, Some("线代"), 3 * MIN, None)
        .unwrap();
    store.finish_session(b, 4 * MIN, 30 * MIN, true).unwrap();

    // 合并：与重命名是同一个操作，聚合后只剩一行
    let changed = store.rename_tag("线代a", Some("线代")).unwrap();
    assert_eq!(changed, 1);
    let totals = store.tag_totals_between("1970-01-01", "2999-12-31").unwrap();
    assert_eq!(totals.len(), 1);
    assert_eq!(totals[0].tag, "线代");
    assert_eq!(totals[0].total_ms, (12 + 30) * 60 * 1000);
    assert_eq!(totals[0].session_count, 2);
}

#[test]
fn rename_tag_untouched_and_clear() {
    let mut store = Store::open_in_memory().unwrap();
    // 未标注：库中 tag 为 NULL
    let untagged = store
        .begin_session(SessionKind::Stopwatch, None, MIN, None)
        .unwrap();
    store
        .finish_session(untagged, 2 * MIN, 9 * MIN, true)
        .unwrap();
    let math = store
        .begin_session(SessionKind::Stopwatch, Some("高数"), 3 * MIN, None)
        .unwrap();
    store.finish_session(math, 4 * MIN, 20 * MIN, true).unwrap();

    // 把「未标注」归类到「英语」：空串匹配 NULL
    let changed = store.rename_tag("", Some("英语")).unwrap();
    assert_eq!(changed, 1);
    let totals = store.tag_totals_between("1970-01-01", "2999-12-31").unwrap();
    assert_eq!(totals.len(), 2);
    assert!(totals.iter().any(|t| t.tag == "英语"));
    assert!(!totals.iter().any(|t| t.tag == ""));

    // 反向操作：把「英语」清空回未标注（to = None）
    let cleared = store.rename_tag("英语", None).unwrap();
    assert_eq!(cleared, 1);
    let totals = store.tag_totals_between("1970-01-01", "2999-12-31").unwrap();
    let blank = totals.iter().find(|t| t.tag == "").unwrap();
    assert_eq!(blank.session_count, 1);
}

#[test]
fn tag_daily_totals_group_by_day_and_tag() {
    let mut store = Store::open_in_memory().unwrap();
    let start = store
        .begin_session(SessionKind::Stopwatch, Some("高数"), MIN, None)
        .unwrap();
    store.finish_session(start, 2 * MIN, 30 * MIN, true).unwrap();
    let second = store
        .begin_session(SessionKind::Stopwatch, Some("英语"), MIN, None)
        .unwrap();
    store
        .finish_session(second, 2 * MIN + SEC, 10 * MIN, true)
        .unwrap();

    // 次日（epoch + 1 天）再来一局高数
    let next_day = store
        .begin_session(SessionKind::Stopwatch, Some("高数"), 24 * 60 * MIN, None)
        .unwrap();
    store
        .finish_session(next_day, 24 * 60 * MIN + MIN, 45 * MIN, true)
        .unwrap();

    // 范围外的老会话（epoch + 10 天，落在 1970-01-11，必然被排除）
    let ancient = store
        .begin_session(SessionKind::Stopwatch, Some("高数"), 10 * 24 * 60 * MIN, None)
        .unwrap();
    store
        .finish_session(ancient, 10 * 24 * 60 * MIN + SEC, 99 * MIN, true)
        .unwrap();

    let rows = store
        .tag_daily_totals_between("1970-01-01", "1970-01-02")
        .unwrap();
    assert_eq!(rows.len(), 3);

    // 第一天两行：高数在前（30 分钟 > 10 分钟）
    assert_eq!(rows[0].tag, "高数");
    assert_eq!(rows[0].total_ms, 30 * 60 * 1000);
    assert_eq!(rows[1].tag, "英语");
    assert_eq!(rows[1].total_ms, 10 * 60 * 1000);
    // 第二天一行
    assert_eq!(rows[2].tag, "高数");
    assert_eq!(rows[2].total_ms, 45 * 60 * 1000);
    assert!(rows[2].day != rows[0].day, "第二行的日期必须不同于第一天");

    // 空范围
    assert!(store
        .tag_daily_totals_between("2000-01-01", "2000-01-02")
        .unwrap()
        .is_empty());
}

#[test]
fn hour_totals_group_by_start_hour() {
    let mut store = store();

    // 基准时刻取 epoch + 12 小时（UTC 正午）：离本地午夜足够远，
    // 任何时区下 t0 与 t0+3h 都落在同一个本地日内，不会出现跨日歧义。
    let base: u64 = 12 * HOUR;
    // 同一小时的两条会话 —— 验证同桶合并
    let a = store
        .begin_session(SessionKind::Stopwatch, Some("高数"), base, None)
        .unwrap();
    store
        .finish_session(a, base + MIN, 25 * MIN, true)
        .unwrap();
    let b = store
        .begin_session(SessionKind::Stopwatch, Some("英语"), base, None)
        .unwrap();
    store
        .finish_session(b, base + 2 * MIN, 10 * MIN, false)
        .unwrap();
    // 三小时后的另一局 —— 验证按开始小时分桶
    let later = base + 3 * HOUR;
    let c = store
        .begin_session(SessionKind::Stopwatch, Some("高数"), later, None)
        .unwrap();
    store
        .finish_session(c, later + MIN, 30 * MIN, true)
        .unwrap();
    // 范围外：epoch + 10 天，必然被排除
    let ancient = 10 * 24 * HOUR;
    let d = store
        .begin_session(SessionKind::Stopwatch, Some("高数"), ancient, None)
        .unwrap();
    store
        .finish_session(d, ancient + SEC, 99 * MIN, true)
        .unwrap();

    // 期望小时从同一存储引擎现查（strftime 的时区转换由 SQLite 保证，
    // 这里验证的是聚合与归属逻辑本身，不重复断言时区行为）。
    let local_hour = |ms: u64| -> u32 {
        store
            .conn()
            .query_row(
                "SELECT CAST(strftime('%H', ?1 / 1000, 'unixepoch', 'localtime') AS INTEGER)",
                [ms as i64],
                |row| row.get::<_, i64>(0),
            )
            .unwrap() as u32
    };
    let h0 = local_hour(base);
    let h3 = local_hour(later);
    assert_eq!(h3, (h0 + 3) % 24, "相隔三小时的会话应落在相差三小时的桶");

    let rows = store
        .hour_totals_between("1970-01-01", "1970-01-02")
        .unwrap();
    assert_eq!(rows.len(), 2, "只应出现两个小时的桶（范围外的被排除）");

    let by_hour: std::collections::HashMap<u32, (i64, i64)> = rows
        .iter()
        .map(|r| (r.hour, (r.total_ms, r.session_count)))
        .collect();
    // 同一小时的两条会话合并：25 + 10 = 35 分钟、2 次
    assert_eq!(
        by_hour.get(&h0),
        Some(&(35 * 60 * 1000, 2)),
        "同一小时的多条会话必须合并进同一个桶"
    );
    assert_eq!(by_hour.get(&h3), Some(&(30 * 60 * 1000, 1)));

    // 空范围
    assert!(store
        .hour_totals_between("2000-01-01", "2000-01-02")
        .unwrap()
        .is_empty());
}




#[test]
fn unknown_stored_kind_is_reported_not_guessed() {
    let mut store = store();
    store
        .conn()
        .execute(
            "INSERT INTO session (kind, state, started_at, anchor_at) VALUES ('sandglass', 'running', 0, 0)",
            [],
        )
        .unwrap();
    match store.recover_on_start(T0) {
        Err(StoreError::UnknownKind(raw)) => assert_eq!(raw, "sandglass"),
        other => panic!("expected UnknownKind, got {other:?}"),
    }
}

#[test]
fn unknown_stored_kind_stops_the_export() {
    let mut store = store();
    store
        .conn()
        .execute(
            "INSERT INTO session (kind, state, started_at, anchor_at, ended_at, elapsed_ms) VALUES ('hourglass', 'finished', 0, 0, 5, 20000)",
            [],
        )
        .unwrap();
    let err = store.finished_sessions().map(|_| ()).unwrap_err();
    assert_eq!(err.message(), "无法识别的会话类型: hourglass");
    assert_eq!(StoreError::UnknownState("frozen".into()).message(), "无法识别的会话状态: frozen");
}

#[test]
fn finishing_exactly_at_the_minimum_is_saved() {
    let mut store = store();
    let id = store.begin_session(SessionKind::Stopwatch, None, T0, None).unwrap();
    assert_eq!(store.finish_session(id, T0 + 10 * SEC, 10 * SEC, false).unwrap(), FinishOutcome::Saved);
    let id2 = store.begin_session(SessionKind::Stopwatch, None, T0, None).unwrap();
    assert_eq!(store.finish_session(id2, T0 + 10 * SEC, 10 * SEC - 1, false).unwrap(), FinishOutcome::Discarded);
    assert_eq!(store.finished_count().unwrap(), 1);
}

#[test]
fn stored_text_round_trips() {
    for kind in [SessionKind::Stopwatch, SessionKind::Countdown] {
        assert_eq!(SessionKind::parse(kind.as_str()), Some(kind));
    }
    for state in [SessionState::Running, SessionState::Paused, SessionState::Finished] {
        assert_eq!(SessionState::parse(state.as_str()), Some(state));
    }
    assert_eq!(SessionKind::parse("Stopwatch"), None);
    assert_eq!(SessionState::parse(""), None);
}

#[test]
fn open_retries_only_driver_failures_before_the_last_attempt() {
    let parse = StoreError::UnknownKind("x".into());
    assert_eq!(open_retry(&parse, 0, 3), OpenRetry::GiveUp);
    let db_err = Store::open_once("/nonexistent-dir-for-pristimer/x/y.db").map(|_| ()).unwrap_err();
    assert!(matches!(db_err, StoreError::Db(_)));
    assert!(db_err.message().starts_with("数据库错误: "));
    assert_eq!(open_retry(&db_err, 0, 3), OpenRetry::SleepThenRetry);
    assert_eq!(open_retry(&db_err, 1, 3), OpenRetry::SleepThenRetry);
    assert_eq!(open_retry(&db_err, 2, 3), OpenRetry::GiveUp);
    assert_eq!(open_retry(&db_err, 0, 0), OpenRetry::GiveUp);
    assert_eq!(open_retry(&db_err, 0, 1), OpenRetry::GiveUp);
}

#[test]
fn recovery_decisions_follow_the_anchor_model() {
    let running = OpenSessionRow {
        id: 7,
        kind: SessionKind::Countdown,
        state: SessionState::Running,
        started_at: 1_000,
        anchor_at: 5_000,
        elapsed_ms: 2_000,
        limit_ms: Some(60_000),
    };
    match plan_recovery_step(&running, 9_000, false) {
        RecoveryStep::Resume { session, elapsed_ms, anchor_at } => {
            assert_eq!(session.elapsed_ms, 6_000);
            assert_eq!(session.age_ms, 8_000);
            assert_eq!(session.limit_ms, Some(60_000));
            assert_eq!(elapsed_ms, 6_000);
            assert_eq!(anchor_at, 9_000);
        }
        other => panic!("expected Resume, got {other:?}"),
    }
    // A newer session was already offered: this one is settled.
    assert_eq!(
        plan_recovery_step(&running, 9_000, true),
        RecoveryStep::Settle { id: 7, elapsed_ms: 6_000, completed: false }
    );
    // Past its limit: settled, capped, completed.
    assert_eq!(
        plan_recovery_step(&running, 100_000, false),
        RecoveryStep::Settle { id: 7, elapsed_ms: 60_000, completed: true }
    );
    // A clock set back before the anchor adds nothing.
    match plan_recovery_step(&running, 3_000, false) {
        RecoveryStep::Resume { session, .. } => {
            assert_eq!(session.elapsed_ms, 2_000);
            assert_eq!(session.age_ms, 2_000);
        }
        other => panic!("expected Resume, got {other:?}"),
    }
}

#[test]
fn recovery_plan_offers_the_newest_and_settles_the_rest() {
    let now: u64 = 2_000_000;
    let newest = OpenSessionRow {
        id: 2,
        kind: SessionKind::Stopwatch,
        state: SessionState::Running,
        started_at: 1_400_000,
        anchor_at: 1_400_000,
        elapsed_ms: 0,
        limit_ms: None,
    };
    let older = OpenSessionRow {
        id: 1,
        kind: SessionKind::Stopwatch,
        state: SessionState::Paused,
        started_at: 800_000,
        anchor_at: 900_000,
        elapsed_ms: 100_000,
        limit_ms: None,
    };
    let (recovery, steps) = plan_recovery(&vec![newest, older], now);
    assert_eq!(recovery.settled, 1);
    let offered = recovery.resume.unwrap();
    assert_eq!(offered.id, 2);
    assert_eq!(offered.elapsed_ms, 600_000);
    assert_eq!(steps.len(), 2);
    assert_eq!(
        recovery_write(&steps[0], now),
        StoreWrite::WriteBack { id: 2, elapsed_ms: 600_000, anchor_at: 2_000_000 }
    );
    assert_eq!(
        recovery_write(&steps[1], now),
        StoreWrite::Finish { id: 1, ended_at: 2_000_000, elapsed_ms: 100_000, completed: 0 }
    );
    let (empty, none) = plan_recovery(&Vec::new(), now);
    assert!(empty.resume.is_none());
    assert_eq!(empty.settled, 0);
    assert!(none.is_empty());
}

#[test]
fn settling_writes_delete_short_and_save_long_sessions() {
    assert_eq!(finish_write(5, 77, 9_999, true), StoreWrite::Delete { id: 5 });
    assert_eq!(
        finish_write(5, 77, 10_000, true),
        StoreWrite::Finish { id: 5, ended_at: 77, elapsed_ms: 10_000, completed: 1 }
    );
    assert_eq!(
        finish_write(5, 77, 20_000, false),
        StoreWrite::Finish { id: 5, ended_at: 77, elapsed_ms: 20_000, completed: 0 }
    );
}

fn raw_row(kind: &str, state: &str, completed: i64) -> RawSessionRow {
    RawSessionRow {
        id: 9,
        kind: kind.into(),
        tag: Some("写作".into()),
        state: state.into(),
        started_at: 1,
        anchor_at: 2,
        ended_at: Some(3),
        elapsed_ms: 4,
        limit_ms: Some(5),
        completed,
        note: None,
    }
}

#[test]
fn stored_rows_convert_field_by_field() {
    let row = session_row_from_raw(&raw_row("countdown", "finished", 2)).unwrap();
    assert_eq!(row.id, 9);
    assert_eq!(row.kind, SessionKind::Countdown);
    assert_eq!(row.state, SessionState::Finished);
    assert_eq!(row.tag.as_deref(), Some("写作"));
    assert_eq!((row.started_at, row.anchor_at, row.ended_at), (1, 2, Some(3)));
    assert_eq!((row.elapsed_ms, row.limit_ms), (4, Some(5)));
    assert!(row.completed);
    assert!(row.note.is_none());
    assert!(!session_row_from_raw(&raw_row("stopwatch", "finished", 0)).unwrap().completed);
    assert!(matches!(
        session_row_from_raw(&raw_row("pomodoro", "weird", 0)),
        Err(StoreError::UnknownKind(k)) if k == "pomodoro"
    ));
    assert!(matches!(
        session_row_from_raw(&raw_row("stopwatch", "weird", 0)),
        Err(StoreError::UnknownState(k)) if k == "weird"
    ));
}

#[test]
fn an_empty_sum_totals_zero() {
    assert_eq!(total_or_zero(None), 0);
    assert_eq!(total_or_zero(Some(42)), 42);
}
