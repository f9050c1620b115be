use baremetalisp::aarch64::graphics::Display;
use baremetalisp::kernel::userland::{loadable_text, LoadErr};
use baremetalisp::aarch64::rand::{rand64, rand_min_max32, rand_min_max64};
use baremetalisp::aarch64::uart::puts;
use baremetalisp::driver::mbox;
use baremetalisp::kernel::process::{
    get_affinity_user, get_raw_id_user, is_kernel, kill, set_tpid_kernel, set_tpid_reg, spawn, KillAction, Process,
    ProcessQ, Sched, State, PROCESS_MAX, schedule2,
};
use baremetalisp::kernel::psci::common::{find_max_off_lvl, is_local_state_off, is_local_state_retn, is_local_state_run};
use baremetalisp::kernel::psci::ep_info::get_ns_ep_info;
use baremetalisp::kernel::psci::{is_psci_fid, smc_handler, smc_reply, PsciResult, SmcAction, PSCI_CPU_ON_AARCH64, PSCI_VERSION};
use baremetalisp::kernel::ringq::RingQ;
use baremetalisp::kernel::semaphore::{post, wait};
use baremetalisp::kernel::thread::{Thread, ThreadQ};
use baremetalisp::aarch64::exception::{curr_el_sp0_sync_el3, curr_el_spx_serror_el3};
use baremetalisp::kernel::syscall::{callback, getpid, recv, send, Callback, Locator, SYS_SEND, SYS_SPAWN};
use baremetalisp::kernel::smc::{thread_cpu_off_handler, thread_handle_std_smc, thread_system_reset_handler};
use baremetalisp::kernel::psci::tree::{validate_state, AffInfoState, PsciData, CORE_COUNT, MAX_OFF_STATE, MAX_PWR_LVL, PSCI_LOCAL_STATE_RUN};

#[test]
fn pid_roundtrip() {
    let p = Process::new(5);
    let pid = p.get_pid(3);
    assert_eq!(pid, 3 * 256 + 5);
    assert_eq!(Process::pid_to_id_cnt(pid), (5, 3));
}

#[test]
fn tpid_register_format() {
    let v = set_tpid_reg(7, 0x1234, 2);
    assert_eq!(v, (2 << 24) | (0x1234 << 8) | 7);
    assert_eq!(get_raw_id_user(v), 7);
    assert_eq!(get_affinity_user(v), 2);
    assert!(!is_kernel(v));
    assert!(is_kernel(set_tpid_kernel()));
}

#[test]
fn spawn_then_schedule() {
    let mut tbl: Vec<Option<Process>> = vec![None; PROCESS_MAX];
    let mut cnt: Vec<u16> = vec![0; PROCESS_MAX];
    let mut q = ProcessQ::new();
    assert_eq!(spawn(&mut tbl, &mut cnt, &mut q), Some((0, 256)));
    assert_eq!(spawn(&mut tbl, &mut cnt, &mut q), Some((1, 257)));
    let mut actives = vec![None; 4];
    assert_eq!(schedule2(&mut tbl, &mut q, &mut actives, 0), Sched::Switch(None, 0));
    assert_eq!(actives[0], Some(0));
    assert_eq!(tbl[0].unwrap().state, State::Active);
    assert_eq!(schedule2(&mut tbl, &mut q, &mut actives, 0), Sched::Switch(Some(0), 1));
    assert_eq!(tbl[0].unwrap().state, State::Ready);
    assert_eq!(tbl[1].unwrap().state, State::Active);
    // the queue now holds process 0 only
    assert_eq!(q.deque(&mut tbl), Some(0));
    assert_eq!(q.deque(&mut tbl), None);
}

#[test]
fn schedule_with_nothing_ready() {
    let mut tbl: Vec<Option<Process>> = vec![None; PROCESS_MAX];
    let mut q = ProcessQ::new();
    let mut actives = vec![None; 4];
    assert_eq!(schedule2(&mut tbl, &mut q, &mut actives, 1), Sched::Done);
}

#[test]
fn kill_ready_process_removes_it() {
    let mut tbl: Vec<Option<Process>> = vec![None; PROCESS_MAX];
    let mut cnt: Vec<u16> = vec![0; PROCESS_MAX];
    let mut q = ProcessQ::new();
    spawn(&mut tbl, &mut cnt, &mut q);
    spawn(&mut tbl, &mut cnt, &mut q);
    spawn(&mut tbl, &mut cnt, &mut q);
    let actives = vec![None; 4];
    assert_eq!(kill(257, &mut tbl, &cnt, &mut q, &actives, 0), KillAction::Removed(1));
    assert!(tbl[1].is_none());
    assert_eq!(q.deque(&mut tbl), Some(0));
    assert_eq!(q.deque(&mut tbl), Some(2));
    assert_eq!(q.deque(&mut tbl), None);
    assert_eq!(kill(999, &mut tbl, &cnt, &mut q, &actives, 0), KillAction::Nothing);
}

#[test]
fn process_queue_remove_tail() {
    let mut tbl: Vec<Option<Process>> = vec![None; PROCESS_MAX];
    for i in 0..3u8 {
        tbl[i as usize] = Some(Process::new(i));
    }
    let mut q = ProcessQ::new();
    q.enque(0, &mut tbl);
    q.enque(1, &mut tbl);
    q.enque(2, &mut tbl);
    q.remove(2, &mut tbl);
    assert_eq!(q.deque(&mut tbl), Some(0));
    assert_eq!(q.deque(&mut tbl), Some(1));
    assert!(q.is_empty());
}

#[test]
fn thread_queue_fifo() {
    let mut tbl: Vec<Thread> = (0..=255u8).map(Thread::new).collect();
    let mut q = ThreadQ::new();
    q.enqueue(3, &mut tbl);
    q.enqueue(9, &mut tbl);
    assert_eq!(q.deque(&mut tbl), Some(3));
    assert_eq!(q.deque(&mut tbl), Some(9));
    assert_eq!(q.deque(&mut tbl), None);
}

#[test]
fn ring_queue_full_after_seven() {
    let mut r: RingQ<u32> = RingQ::new();
    for i in 0..7 {
        assert!(r.enque(i).is_ok());
    }
    assert_eq!(r.enque(100), Err(100));
    let mut e: RingQ<u32> = RingQ::new();
    assert_eq!(e.deque(), None);
}

#[test]
fn ring_queue_is_fifo_across_the_wrap() {
    let mut r: RingQ<u32> = RingQ::new();
    let mut next_in = 0;
    let mut next_out = 0;
    // go round the ring several times, keeping three values waiting between rounds
    for _ in 0..3 {
        assert!(r.enque(next_in).is_ok());
        next_in += 1;
    }
    for _ in 0..5 {
        for _ in 0..4 {
            assert!(r.enque(next_in).is_ok());
            next_in += 1;
        }
        for _ in 0..4 {
            assert_eq!(r.deque(), Some(next_out));
            next_out += 1;
        }
    }
    while next_out < next_in {
        assert_eq!(r.deque(), Some(next_out));
        next_out += 1;
    }
    assert_eq!(r.deque(), None);
}

#[test]
fn psci_calls() {
    assert!(is_psci_fid(PSCI_VERSION));
    assert!(!is_psci_fid(0x84000020));
    assert_eq!(smc_handler(PSCI_VERSION, false), SmcAction::Reply(0x10001));
    assert_eq!(smc_handler(PSCI_CPU_ON_AARCH64, false), SmcAction::CpuOn);
    assert_eq!(smc_handler(PSCI_VERSION, true), SmcAction::Reply((-1i64) as u64));
    assert_eq!(smc_handler(0x84000002, false), SmcAction::Reply((-1i64) as u64));
    assert_eq!(PsciResult::PsciEInvalidAddress.code(), -9);
}

#[test]
fn psci_local_states() {
    assert!(is_local_state_run(0));
    assert!(is_local_state_retn(1));
    assert!(is_local_state_off(2));
    assert!(!is_local_state_off(1));
    assert_eq!(find_max_off_lvl(&[2, 2, 0]), 1);
    assert_eq!(find_max_off_lvl(&[0, 1, 0]), 3);
}

#[test]
fn psci_entry_point() {
    let ep = get_ns_ep_info(0x4000_0000, 7, 0x400 | 0x100, 0, 0).unwrap();
    assert_eq!(ep.spsr, 0x3c9);
    assert_eq!(ep.args.arg0, 7);
    assert_eq!(ep.pc, 0x4000_0000);
    assert_eq!(get_ns_ep_info(0x4000_0001, 0, 0x400, 0, 0).unwrap_err(), PsciResult::PsciEInvalidAddress);
    let ep32 = get_ns_ep_info(0x1001, 0, 0, 0, 0x200_0000).unwrap();
    assert_eq!(ep32.spsr, 0x10 | 0x3 | (1 << 5) | (1 << 9) | (7 << 6));
    assert_eq!(ep32.h.attr, 0x3);
}

#[test]
fn random_numbers() {
    assert_eq!(rand64(1, 2), (2u64 << 32) | 1);
    assert_eq!(rand_min_max32(17, 10, 15), 12);
    assert_eq!(rand_min_max64(17, 10, 15), 12);
}

#[test]
fn uart_newlines() {
    assert_eq!(puts("a\nb"), vec!['a' as u32, '\n' as u32, '\r' as u32, 'b' as u32]);
    assert_eq!(puts(""), Vec::<u32>::new());
}

#[test]
fn mailbox_messages() {
    assert_eq!(mbox::mbox_word(0x1000, 8), Some(0x1008));
    assert_eq!(mbox::mbox_word(0x1001, 8), None);
    assert_eq!(mbox::mbox_word(0x1_0000_0000, 8), None);
    let m = [32, 0x80000000, 0x10004, 8, 8, 0x1111, 0x2222, 0];
    assert_eq!(mbox::get_serial(true, &m), Some(0x2222_0000_1111));
    assert_eq!(mbox::get_serial(false, &m), None);
    assert_eq!(mbox::set_power_off(3)[5], 3);
    assert_eq!(mbox::len7_request(0x10001)[2], 0x10001);
}

#[test]
fn frame_buffer_pixel() {
    let mut d = Display { size_phy: (2, 2), size_virt: (2, 2), offset: (0, 0), depth: 32, pitch: 8, ptr: 0, buffer: vec![0; 16] };
    d.set_pixel(1, 1, 10, 20, 30);
    assert_eq!(&d.buffer[12..15], &[10, 20, 30]);
    assert_eq!(d.buffer[0], 0);
}

#[test]
fn exception_messages() {
    assert_eq!(curr_el_sp0_sync_el3(), "exception: SP0 Sync\n");
    assert_eq!(curr_el_spx_serror_el3(), "exception: SPX Error\n");
}

#[test]
fn syscall_answers() {
    assert_eq!(baremetalisp::kernel::syscall::spawn(-1), None);
    assert_eq!(baremetalisp::kernel::syscall::spawn(258), Some(258));
    assert!(send(1));
    assert!(!send(0));
    assert_eq!(getpid(5), 5);
    assert_eq!(recv(42), 42);
}

#[test]
fn interpreter_syscall_dispatch() {
    assert_eq!(callback(Some(SYS_SPAWN), Some(3), Some(3), None), Callback::Spawn(3));
    assert_eq!(callback(Some(SYS_SEND), Some(7), Some(7), Some(9)), Callback::Send(Locator::Process(7), 9));
    assert_eq!(callback(Some(SYS_SEND), Some(7), Some(7), None), Callback::Invalid);
    assert_eq!(callback(Some(77), None, None, None), Callback::Unsupported(77));
    assert_eq!(callback(None, None, None, None), Callback::Invalid);
}

#[test]
fn smc_thread_handlers_accept() {
    assert_eq!(thread_handle_std_smc(1, 2, 3, 4, 5, 6, 7, 8), 0);
    assert_eq!(thread_cpu_off_handler(1, 2), 0);
    assert_eq!(thread_system_reset_handler(1, 2), 0);
}

#[test]
fn psci_tree_power_on() {
    let mut d = PsciData::new();
    d.init_pwr_domain_node(0, usize::MAX, 2);
    d.init_pwr_domain_node(1, 0, 1);
    for c in 0..CORE_COUNT {
        d.init_pwr_domain_node(c, 1, 0);
    }
    d.init_req_local_pwr_states();
    assert!(d.req_local_pwr_states.iter().all(|s| *s == MAX_OFF_STATE));
    assert_eq!(d.get_parent_pwr_domain_nodes(2), [1, 0]);
    assert_eq!(d.get_power_on_target_pwrlvl(2), MAX_PWR_LVL);
    d.set_pwr_domains_to_run(2, MAX_PWR_LVL);
    assert_eq!(d.cpu_data[2].aff_info_state, AffInfoState::StateOn);
    assert_eq!(d.non_cpu[0].local_state, PSCI_LOCAL_STATE_RUN);
    assert_eq!(d.non_cpu[1].local_state, PSCI_LOCAL_STATE_RUN);
    assert_eq!(d.req_local_pwr_states[2], PSCI_LOCAL_STATE_RUN);
    assert_eq!(d.req_local_pwr_states[CORE_COUNT + 2], PSCI_LOCAL_STATE_RUN);
    assert_eq!(d.req_local_pwr_states[0], MAX_OFF_STATE);
}

#[test]
fn display_answer() {
    let req = mbox::display_request(1024, 768, 1024, 768, 0, 0);
    assert_eq!(req[0], 140);
    assert_eq!(req[5], 1024);
    assert_eq!(req[34], 0);
    let mut m = req;
    m[28] = 0xC000_1000;
    m[33] = 4096;
    let fb = mbox::set_display(true, &m).unwrap();
    assert_eq!(fb.ptr, 0x1000);
    assert_eq!(fb.pitch, 4096);
    assert_eq!(fb.len, 4096 * 768);
    assert!(mbox::set_display(false, &m).is_none());
    m[20] = 16;
    assert!(mbox::set_display(true, &m).is_none());
}

#[test]
fn psci_target_states_roundtrip() {
    let mut d = PsciData::new();
    d.init_pwr_domain_node(0, usize::MAX, 2);
    d.init_pwr_domain_node(1, 0, 1);
    for c in 0..CORE_COUNT {
        d.init_pwr_domain_node(c, 1, 0);
    }
    d.set_target_local_pwr_states(1, 2, &[1, 2, 0]);
    assert_eq!(d.get_target_local_pwr_states(1, 2), [1, 2, 0]);
    assert_eq!(d.get_target_local_pwr_states(1, 1), [1, 2, 0]);
    assert_eq!(d.get_target_local_pwr_states(1, 0), [1, 0, 0]);
}

#[test]
fn timer_wait() {
    use_timer();
}

fn use_timer() {
    assert!(baremetalisp::aarch64::delays::wait_microsec_st(100, 10, 105));
    assert!(!baremetalisp::aarch64::delays::wait_microsec_st(100, 10, 110));
    assert!(!baremetalisp::aarch64::delays::wait_microsec_st(0, 10, 0));
}

#[test]
fn mmu_register_values() {
    use_mmu();
}

fn use_mmu() {
    use_mmu_values();
    let mut tt = vec![7u64; 8192 * 10];
    baremetalisp::aarch64::mmu::init_table_flat(&mut tt, 0x1000_0000, 3);
    assert_eq!(tt[0], (0x1000_0000 + 0x10000) | 3);
    assert_eq!(tt[7], (0x1000_0000 + 8 * 0x10000) | 3);
    assert_eq!(tt[8], 7);
    // secure kernel pages
    assert_eq!(tt[8192], 3 | 0x400 | 0x300);
    assert_eq!(tt[8192 + 1], 0x10000 | 3 | 0x400 | 0x300);
    // the page just before the end is left alone
    assert_eq!(tt[8192 + 2], 7);
    // normal non-cacheable memory
    assert_eq!(tt[8192 + 3], 3 * 0x10000 | 3 | 0x400 | 0x300 | 0x40 | 0x8);
    // devices
    let dev = 0x3C00usize;
    assert_eq!(tt[8192 + dev], (dev as u64) * 0x10000 | 3 | (1 << 54) | (1 << 53) | 0x400 | 0x200 | 0x40 | 0x4);
    // the last page is left alone
    assert_eq!(tt[8192 + 8192 * 8 - 1], 7);
}

fn use_mmu_values() {
    assert_eq!(baremetalisp::aarch64::mmu::get_mair(), 0x4404ff);
    assert_eq!(baremetalisp::aarch64::mmu::get_tcr(0x25), 0x8080_7500 | (5 << 16) | 22);
    assert_eq!(baremetalisp::aarch64::mmu::update_sctlr(0x0200_000a), 0x1001);
    assert_eq!(baremetalisp::aarch64::mmu::enabled(2, 1), Some(true));
    assert_eq!(baremetalisp::aarch64::mmu::enabled(0, 1), None);
}

fn platform_tree() -> PsciData {
    let mut d = PsciData::new();
    d.init_pwr_domain_node(0, usize::MAX, 2);
    d.init_pwr_domain_node(1, 0, 1);
    for c in 0..CORE_COUNT {
        d.init_pwr_domain_node(c, 1, 0);
    }
    d
}

#[test]
fn psci_cpu_on_states() {
    assert_eq!(validate_state(&AffInfoState::StateOn), PsciResult::PsciEAleadyOn);
    assert_eq!(validate_state(&AffInfoState::StateOnPending), PsciResult::PsciEOnPending);
    assert_eq!(validate_state(&AffInfoState::StateOff), PsciResult::PsciESuccess);
    let mut d = platform_tree();
    assert_eq!(d.start(1), PsciResult::PsciESuccess);
    assert_eq!(d.cpu_data[1].aff_info_state, AffInfoState::StateOnPending);
    assert_eq!(d.start(1), PsciResult::PsciEOnPending);
    assert_eq!(d.on_result(1, PsciResult::PsciEDenied), PsciResult::PsciEDenied);
    assert_eq!(d.cpu_data[1].aff_info_state, AffInfoState::StateOff);
    assert_eq!(d.start(1), PsciResult::PsciESuccess);
    let (end, states, pending) = d.init_warmboot(1);
    assert_eq!(end, MAX_PWR_LVL);
    assert_eq!(states, [MAX_OFF_STATE, MAX_OFF_STATE, MAX_OFF_STATE]);
    assert!(pending);
    assert_eq!(d.cpu_data[1].aff_info_state, AffInfoState::StateOn);
    assert_eq!(d.start(1), PsciResult::PsciEAleadyOn);
}

#[test]
fn load_app_out_of_range_is_none() {
    let apps = ["(export f (x) (Pure (-> (Int) Int)) x)"];
    assert!(baremetalisp::kernel::userland::load_app(1, &apps).is_none());
}

#[test]
fn load_app_parses_program() {
    let apps = ["(export f (x) (Pure (-> (Int) Int)) x)", "(export g (x"];
    assert!(matches!(baremetalisp::kernel::userland::load_app(0, &apps), Some(Ok(_))));
    assert!(matches!(baremetalisp::kernel::userland::load_app(1, &apps), Some(Err(LoadErr::Init(_)))));
}

#[test]
fn unloadable_programs_are_not_parsed() {
    // a non-ASCII comment, a macro definition, and nesting too deep for the expander
    let deep = format!("{}1{}", "(".repeat(300), ")".repeat(300));
    let apps = ["; \u{e9}\u{e9}\n(export f (x) (Pure (-> (Int) Int)) x)", "(macro m ((_ x) x))", deep.as_str()];
    for i in 0..apps.len() {
        assert!(matches!(baremetalisp::kernel::userland::load_app(i, &apps), Some(Err(LoadErr::Unloadable))));
    }
}

#[test]
fn loadable_text_counts_brackets() {
    assert!(loadable_text("(f [a b] '(1 2))"));
    assert!(!loadable_text("(f \u{e9})"));
    assert!(!loadable_text("(macro)"));
    let edge = format!("{}{}", "(".repeat(254), ")".repeat(254));
    assert!(loadable_text(&edge));
    let over = format!("{}{}", "(".repeat(255), ")".repeat(255));
    assert!(!loadable_text(&over));
}

#[test]
fn psci_cpu_on_sequence() {
    let mut d = PsciData::new();
    // no such core
    assert!(matches!(d.psci_cpu_on(None, 0x8000, 0, true, 0x400, 0, 0), Err(PsciResult::PsciEInvalidParams)));
    // the platform refuses the entry point
    assert!(matches!(d.psci_cpu_on(Some(1), 0x8000, 0, false, 0x400, 0, 0), Err(PsciResult::PsciEInvalidAddress)));
    // an aarch64 entry point must not be a Thumb address
    assert!(matches!(d.psci_cpu_on(Some(1), 0x8001, 0, true, 0x400, 0, 0), Err(PsciResult::PsciEInvalidAddress)));
    // core 1 is off: it becomes pending
    let ep = d.psci_cpu_on(Some(1), 0x8000, 7, true, 0x400, 0, 0).unwrap();
    assert_eq!(ep.pc, 0x8000);
    assert_eq!(ep.args.arg0, 7);
    assert_eq!(d.cpu_data[1].aff_info_state, AffInfoState::StateOnPending);
    assert!(matches!(d.psci_cpu_on(Some(1), 0x8000, 7, true, 0x400, 0, 0), Err(PsciResult::PsciEOnPending)));
}

#[test]
fn update_pwrlvl_limits_counts_cores() {
    // one system domain (0) holding one cluster (1) holding all four cores
    let mut d = PsciData::new();
    for i in 0..CORE_COUNT {
        d.cpus[i].parent_node = 1;
    }
    d.non_cpu[1].parent_node = 0;
    d.update_pwrlvl_limits();
    assert_eq!(d.non_cpu[0].ncpus, 4);
    assert_eq!(d.non_cpu[1].ncpus, 4);
    assert_eq!(d.non_cpu[0].cpu_start_idx, 0);
    assert_eq!(d.non_cpu[1].cpu_start_idx, 0);
}

#[test]
fn update_pwrlvl_limits_two_clusters() {
    // cores 0 and 1 under domain 0, cores 2 and 3 under domain 1, both under domain 0
    let mut d = PsciData::new();
    d.cpus[0].parent_node = 0;
    d.cpus[1].parent_node = 0;
    d.cpus[2].parent_node = 1;
    d.cpus[3].parent_node = 1;
    d.update_pwrlvl_limits();
    // domain 0: cores 0 and 1 at the lowest level, all four at the next
    assert_eq!(d.non_cpu[0].ncpus, 6);
    assert_eq!(d.non_cpu[1].ncpus, 2);
    assert_eq!(d.non_cpu[1].cpu_start_idx, 2);
    assert_eq!(d.non_cpu[0].cpu_start_idx, 0);
}

#[test]
fn populate_power_domain_tree_breadth_first() {
    // one system domain, one cluster below it, four cores below the cluster
    let mut d = PsciData::new();
    let n = d.populate_power_domain_tree(&[1, 1, 4]);
    assert_eq!(n, 4);
    assert_eq!(d.non_cpu[0].level, MAX_PWR_LVL);
    assert_eq!(d.non_cpu[0].parent_node, usize::MAX);
    assert_eq!(d.non_cpu[0].local_state, MAX_OFF_STATE);
    assert_eq!(d.non_cpu[1].level, 1);
    assert_eq!(d.non_cpu[1].parent_node, 0);
    for i in 0..CORE_COUNT {
        assert_eq!(d.cpus[i].parent_node, 1);
        assert_eq!(d.cpu_data[i].aff_info_state, AffInfoState::StateOff);
    }
}

#[test]
fn populate_without_cores_returns_roots() {
    let mut d = PsciData::new();
    assert_eq!(d.populate_power_domain_tree(&[2, 0, 0]), 2);
}

fn shallowest(_lvl: usize, reqs: Vec<u8>, ncpus: usize) -> u8 {
    *reqs[..ncpus].iter().min().unwrap()
}

fn coordination_tree() -> PsciData {
    // one system domain (0) holding one cluster (1) holding all four cores
    let mut d = PsciData::new();
    for i in 0..CORE_COUNT {
        d.cpus[i].parent_node = 1;
    }
    d.non_cpu[1].parent_node = 0;
    d.update_pwrlvl_limits();
    d.init_req_local_pwr_states();
    d
}

#[test]
fn state_coordination_all_off() {
    let mut d = coordination_tree();
    let mut si = [MAX_OFF_STATE, MAX_OFF_STATE, MAX_OFF_STATE];
    d.do_state_coordination(0, MAX_PWR_LVL as usize, &mut si, &shallowest);
    assert_eq!(si, [MAX_OFF_STATE, MAX_OFF_STATE, MAX_OFF_STATE]);
    assert_eq!(d.cpu_data[0].local_state, MAX_OFF_STATE);
    assert_eq!(d.non_cpu[1].local_state, MAX_OFF_STATE);
    assert_eq!(d.non_cpu[0].local_state, MAX_OFF_STATE);
}

#[test]
fn state_coordination_stops_at_run() {
    let mut d = coordination_tree();
    // the cluster is asked to run: the system above it runs too, its request recorded
    let mut si = [MAX_OFF_STATE, PSCI_LOCAL_STATE_RUN, MAX_OFF_STATE];
    d.do_state_coordination(0, MAX_PWR_LVL as usize, &mut si, &shallowest);
    assert_eq!(si, [MAX_OFF_STATE, PSCI_LOCAL_STATE_RUN, PSCI_LOCAL_STATE_RUN]);
    assert_eq!(d.req_local_pwr_states[0], PSCI_LOCAL_STATE_RUN);
    assert_eq!(d.req_local_pwr_states[CORE_COUNT], MAX_OFF_STATE);
    assert_eq!(d.non_cpu[0].local_state, PSCI_LOCAL_STATE_RUN);
}

#[test]
fn smc_reply_after_platform() {

    let reset = smc_handler(0x84000009, false);
    assert_eq!(reset, SmcAction::SystemReset);
    assert_eq!(smc_reply(reset, PsciResult::PsciESuccess), (-6i64) as u64);
    assert_eq!(smc_reply(SmcAction::SystemOff, PsciResult::PsciESuccess), (-6i64) as u64);
    assert_eq!(smc_reply(SmcAction::CpuOn, PsciResult::PsciEAleadyOn), (-4i64) as u64);
    assert_eq!(smc_reply(SmcAction::Reply(0x10001), PsciResult::PsciESuccess), 0x10001);
}

#[test]
fn hex_prints_sixteen_digits() {
    let codes = baremetalisp::aarch64::uart::hex(0x0123_4567_89ab_cdef);
    let text: String = codes.iter().map(|c| char::from_u32(*c).unwrap()).collect();
    assert_eq!(text, "0123456789ABCDEF");
    let zero: String = baremetalisp::aarch64::uart::hex(0).iter().map(|c| char::from_u32(*c).unwrap()).collect();
    assert_eq!(zero, "0000000000000000");
}

#[test]
fn semaphore_counting() {

    // a free semaphore: waiting takes it without blocking, the next waiter blocks
    assert_eq!(wait(1), (0, false));
    assert_eq!(wait(0), (-1, true));
    // a post wakes waiters only while the count, once raised, is positive: from -1 it
    // reaches 0 and wakes no one
    assert_eq!(post(-1, 1), (0, 0));
    assert_eq!(post(0, 3), (0, 1));
    assert_eq!(post(2, 1), (2, 1));
    assert_eq!(post(0, 0), (1, 0));
}
