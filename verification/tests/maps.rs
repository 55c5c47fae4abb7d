use bpf_maps::descriptor::{check_name, read_field, MapDef, MapDescriptor, MAP_DEF_LEN};
use bpf_maps::error::Error;
use bpf_maps::hash_map::{check_layout, HashMap};
use bpf_maps::lpm_trie_map::{LPMTrieKey, LPMTrieMap};
use bpf_maps::percpu_array_map::{num_cpu_cores, PerCPUArrayMap};
use bpf_maps::syscall::{advance, reply, Call, Event, Step};

fn record(kind: u32, key_size: u32, value_size: u32, max_entries: u32, flags: u32) -> Vec<u8> {
    let mut code = Vec::new();
    for field in [kind, key_size, value_size, max_entries, flags] {
        code.extend_from_slice(&field.to_le_bytes());
    }
    code
}

fn descriptor(key_size: u32, value_size: u32, max_entries: u32) -> MapDescriptor {
    MapDescriptor::load("test_map", &record(1, key_size, value_size, max_entries, 0), 3).unwrap()
}

/// A stand-in for the kernel side of a map with one `u32` value per `u32` key.
struct Kernel {
    entries: Vec<(u32, u32)>,
    capacity: usize,
    calls: usize,
}

impl Kernel {
    fn new(capacity: usize) -> Kernel {
        Kernel { entries: Vec::new(), capacity, calls: 0 }
    }

    fn position(&self, key: u32) -> Option<usize> {
        self.entries.iter().position(|entry| entry.0 == key)
    }

    /// Performs a call; returns its return code and the buffer it filled.
    fn perform(&mut self, call: Call<u32, u32>) -> (i32, u32) {
        self.calls += 1;
        match call {
            Call::Update { fd, key, value, flags } => {
                assert_eq!(fd, 3);
                assert_eq!(flags, 0);
                match self.position(key) {
                    Some(at) => {
                        self.entries[at].1 = value;
                        (0, 0)
                    }
                    None if self.entries.len() < self.capacity => {
                        self.entries.push((key, value));
                        (0, 0)
                    }
                    None => (-1, 0),
                }
            }
            Call::Lookup { fd, key, slots } => {
                assert_eq!(fd, 3);
                assert_eq!(slots, 1);
                match self.position(key) {
                    Some(at) => (0, self.entries[at].1),
                    None => (-1, 0),
                }
            }
            Call::Delete { fd, key } => {
                assert_eq!(fd, 3);
                match self.position(key) {
                    Some(at) => {
                        self.entries.remove(at);
                        (0, 0)
                    }
                    None => (-1, 0),
                }
            }
            Call::FirstKey { fd, key_size } => {
                assert_eq!(fd, 3);
                assert_eq!(key_size, 4);
                match self.entries.first() {
                    Some(entry) => (0, entry.0),
                    None => (-1, 0),
                }
            }
            Call::NextKey { fd, key } => {
                assert_eq!(fd, 3);
                match self.position(key) {
                    Some(at) if at + 1 < self.entries.len() => (0, self.entries[at + 1].0),
                    Some(_) => (-1, 0),
                    None => match self.entries.first() {
                        Some(entry) => (0, entry.0),
                        None => (-1, 0),
                    },
                }
            }
        }
    }

    fn get(&mut self, view: &HashMap<u32, u32>, key: u32) -> Option<u32> {
        let (ret, value) = self.perform(view.lookup(key));
        view.get(ret, value)
    }

    fn enumerate(&mut self, view: &HashMap<u32, u32>) -> Vec<(u32, u32)> {
        let mut cursor = view.iter();
        let mut pairs = Vec::new();
        loop {
            let mut step = cursor.next(Event::Begin);
            loop {
                match step {
                    Step::Ask(call) => {
                        let lookup = matches!(call, Call::Lookup { .. });
                        let first = matches!(call, Call::FirstKey { .. });
                        let (ret, out) = self.perform(call);
                        let event = if lookup {
                            Event::Value(view.get(ret, out))
                        } else if first {
                            Event::Key(cursor.get_first_key(ret, out))
                        } else {
                            Event::Key(cursor.get_next_key(ret, out))
                        };
                        step = cursor.next(event);
                    }
                    Step::Yield(key, value) => {
                        pairs.push((key, value));
                        break;
                    }
                    Step::Done => return pairs,
                }
            }
        }
    }
}

#[test]
fn record_fields_are_read_in_order() {
    let code = record(1, 4, 8, 10, 2);
    assert_eq!(code.len(), MAP_DEF_LEN);
    assert_eq!(
        MapDef::read(&code),
        MapDef { type_: 1, key_size: 4, value_size: 8, max_entries: 10, map_flags: 2 }
    );
}

#[test]
fn record_fields_are_little_endian() {
    let code: Vec<u8> = vec![
        0x01, 0x02, 0x03, 0x04, 0xff, 0xff, 0xff, 0xff, 0x00, 0x00, 0x00, 0x80, 0x10, 0x00, 0x00,
        0x00, 0x00, 0x01, 0x00, 0x00, 0xaa, 0xbb,
    ];
    let def = MapDef::read(&code);
    assert_eq!(def.type_, 0x0403_0201);
    assert_eq!(def.key_size, u32::MAX);
    assert_eq!(def.value_size, 0x8000_0000);
    assert_eq!(def.max_entries, 16);
    assert_eq!(def.map_flags, 256);
    assert_eq!(read_field(&code, 1), 0xff04_0302);
    assert_eq!(read_field(&code, 18), 0xbbaa_0000);
}

#[test]
fn name_with_nul_is_refused() {
    assert_eq!(check_name("counts"), Ok(()));
    assert_eq!(check_name(""), Ok(()));
    assert_eq!(check_name("cou\0nts"), Err(Error::StringConversion));
    assert_eq!(check_name("counts\0"), Err(Error::StringConversion));
}

#[test]
fn prepare_gives_the_geometry() {
    let code = record(5, 4, 4, 10, 0);
    assert_eq!(
        MapDescriptor::prepare("m", &code),
        Ok(MapDef { type_: 5, key_size: 4, value_size: 4, max_entries: 10, map_flags: 0 })
    );
    assert_eq!(MapDescriptor::prepare("m\0", &code), Err(Error::StringConversion));
}

#[test]
fn load_wraps_the_handle() {
    let code = record(1, 4, 4, 10, 7);
    let map = MapDescriptor::load("counts", &code, 5).unwrap();
    assert_eq!(map.name, "counts");
    assert_eq!(map.kind, 1);
    assert_eq!(map.fd, 5);
    assert_eq!(
        map.config,
        MapDef { type_: 1, key_size: 4, value_size: 4, max_entries: 10, map_flags: 7 }
    );
    let zero = MapDescriptor::load("counts", &code, 0).unwrap();
    assert_eq!(zero.fd, 0);
}

#[test]
fn load_fails_when_creation_failed() {
    let code = record(1, 4, 4, 10, 0);
    assert!(matches!(MapDescriptor::load("counts", &code, -1), Err(Error::MapCreationFailed)));
    assert!(matches!(
        MapDescriptor::load("counts", &code, i32::MIN),
        Err(Error::MapCreationFailed)
    ));
}

#[test]
fn load_fails_on_a_name_with_nul() {
    let code = record(1, 4, 4, 10, 0);
    assert!(matches!(MapDescriptor::load("a\0b", &code, 5), Err(Error::StringConversion)));
    assert!(matches!(MapDescriptor::load("a\0b", &code, -1), Err(Error::StringConversion)));
}

#[test]
fn view_needs_matching_sizes() {
    let base = descriptor(4, 4, 10);
    assert!(HashMap::<u32, u32>::new(&base).is_ok());
    assert!(HashMap::<i32, [u8; 4]>::new(&base).is_ok());
    assert!(matches!(HashMap::<u64, u32>::new(&base), Err(Error::LayoutMismatch)));
    assert!(matches!(HashMap::<u32, u64>::new(&base), Err(Error::LayoutMismatch)));
    assert!(matches!(HashMap::<u8, u8>::new(&base), Err(Error::LayoutMismatch)));
    assert_eq!(check_layout::<u32, u32>(&base), Ok(()));
    assert_eq!(check_layout::<u32, u16>(&base), Err(Error::LayoutMismatch));
}

#[test]
fn per_unit_and_prefix_views_need_matching_sizes() {
    let base = descriptor(4, 8, 10);
    assert!(PerCPUArrayMap::<u32, u64>::new(&base).is_ok());
    assert!(matches!(PerCPUArrayMap::<u32, u32>::new(&base), Err(Error::LayoutMismatch)));
    assert!(LPMTrieMap::<u32, u64>::new(&base).is_ok());
    assert!(matches!(LPMTrieMap::<u64, u64>::new(&base), Err(Error::LayoutMismatch)));
}

#[test]
fn calls_carry_handle_and_arguments() {
    let base = descriptor(4, 4, 10);
    let view = HashMap::<u32, u32>::new(&base).unwrap();
    assert!(matches!(view.set(1, 100), Call::Update { fd: 3, key: 1, value: 100, flags: 0 }));
    assert!(matches!(view.lookup(7), Call::Lookup { fd: 3, key: 7, slots: 1 }));
    assert!(matches!(view.delete(9), Call::Delete { fd: 3, key: 9 }));
}

#[test]
fn negative_return_is_a_miss() {
    assert_eq!(reply(0, 5u32), Some(5));
    assert_eq!(reply(7, 5u32), Some(5));
    assert_eq!(reply(-1, 5u32), None);
    assert_eq!(reply(i32::MIN, 5u32), None);
    let base = descriptor(4, 4, 10);
    let view = HashMap::<u32, u32>::new(&base).unwrap();
    assert_eq!(view.get(0, 42), Some(42));
    assert_eq!(view.get(-2, 42), None);
}

#[test]
fn set_then_get_round_trips() {
    let base = descriptor(4, 4, 10);
    let view = HashMap::<u32, u32>::new(&base).unwrap();
    let mut kernel = Kernel::new(10);
    kernel.perform(view.set(7, 70));
    assert_eq!(kernel.get(&view, 7), Some(70));
    kernel.perform(view.set(7, 71));
    assert_eq!(kernel.get(&view, 7), Some(71));
    assert_eq!(kernel.get(&view, 8), None);
}

#[test]
fn delete_of_absent_key_is_harmless() {
    let base = descriptor(4, 4, 10);
    let view = HashMap::<u32, u32>::new(&base).unwrap();
    let mut kernel = Kernel::new(10);
    kernel.perform(view.set(1, 10));
    kernel.perform(view.delete(5));
    assert_eq!(kernel.entries, vec![(1, 10)]);
    kernel.perform(view.delete(1));
    kernel.perform(view.delete(1));
    assert_eq!(kernel.entries, vec![]);
    assert_eq!(kernel.get(&view, 1), None);
}

#[test]
fn enumeration_yields_every_entry_once() {
    let base = descriptor(4, 4, 10);
    let view = HashMap::<u32, u32>::new(&base).unwrap();
    let mut kernel = Kernel::new(10);
    for key in [5u32, 3, 9, 1] {
        kernel.perform(view.set(key, key * 10));
    }
    kernel.perform(view.set(3, 33));
    assert_eq!(kernel.enumerate(&view), vec![(5, 50), (3, 33), (9, 90), (1, 10)]);
}

#[test]
fn enumeration_of_empty_map_ends_at_once() {
    let base = descriptor(4, 4, 10);
    let view = HashMap::<u32, u32>::new(&base).unwrap();
    let mut kernel = Kernel::new(10);
    assert_eq!(kernel.enumerate(&view), vec![]);
    assert_eq!(kernel.calls, 1);
    let mut cursor = view.iter();
    assert!(matches!(cursor.next(Event::Begin), Step::Ask(Call::FirstKey { fd: 3, key_size: 4 })));
    assert!(matches!(cursor.next(Event::Key(None)), Step::Done));
}

#[test]
fn cursor_steps_through_the_protocol() {
    let base = descriptor(4, 4, 10);
    let view = HashMap::<u32, u32>::new(&base).unwrap();
    let mut cursor = view.iter();
    assert!(matches!(cursor.next(Event::Begin), Step::Ask(Call::FirstKey { fd: 3, key_size: 4 })));
    assert!(matches!(
        cursor.next(Event::Key(Some(8))),
        Step::Ask(Call::Lookup { fd: 3, key: 8, slots: 1 })
    ));
    assert!(matches!(cursor.next(Event::Value(Some(80))), Step::Yield(8, 80)));
    assert!(matches!(cursor.next(Event::Begin), Step::Ask(Call::NextKey { fd: 3, key: 8 })));
    assert!(matches!(cursor.next(Event::Key(None)), Step::Done));
    assert!(matches!(cursor.next(Event::Begin), Step::Ask(Call::NextKey { fd: 3, key: 8 })));
    assert!(matches!(cursor.next(Event::Key(None)), Step::Done));
}

#[test]
fn cursor_skips_a_key_whose_value_is_gone() {
    let base = descriptor(4, 4, 10);
    let view = HashMap::<u32, u32>::new(&base).unwrap();
    let mut cursor = view.iter();
    cursor.next(Event::Begin);
    cursor.next(Event::Key(Some(8)));
    assert!(matches!(cursor.next(Event::Value(None)), Step::Ask(Call::NextKey { fd: 3, key: 8 })));
    assert!(matches!(
        cursor.next(Event::Key(Some(9))),
        Step::Ask(Call::Lookup { fd: 3, key: 9, slots: 1 })
    ));
    assert!(matches!(cursor.next(Event::Value(Some(90))), Step::Yield(9, 90)));
}

#[test]
fn value_without_a_key_ends_the_pass() {
    let mut last: Option<u32> = None;
    let step: Step<u32, u32, u32> = advance(3, 4, 1, &mut last, Event::Value(Some(1)));
    assert!(matches!(step, Step::Done));
    assert_eq!(last, None);
    let mut held: Option<u32> = Some(6);
    let step: Step<u32, u32, u32> = advance(3, 4, 2, &mut held, Event::Key(Some(7)));
    assert!(matches!(step, Step::Ask(Call::Lookup { fd: 3, key: 7, slots: 2 })));
    assert_eq!(held, Some(7));
}

#[test]
fn scalar_map_scenario() {
    let code = record(1, 4, 4, 10, 0);
    let base = MapDescriptor::load("scalar", &code, 3).unwrap();
    assert_eq!(base.config.key_size, 4);
    assert_eq!(base.config.value_size, 4);
    assert_eq!(base.config.max_entries, 10);
    let view = HashMap::<u32, u32>::new(&base).unwrap();
    let mut kernel = Kernel::new(base.config.max_entries as usize);
    kernel.perform(view.set(1, 100));
    kernel.perform(view.set(2, 200));
    assert_eq!(kernel.get(&view, 1), Some(100));
    kernel.perform(view.delete(1));
    assert_eq!(kernel.get(&view, 1), None);
    assert_eq!(kernel.enumerate(&view), vec![(2, 200)]);
}

#[test]
fn full_map_drops_a_new_key() {
    let base = descriptor(4, 4, 1);
    let view = HashMap::<u32, u32>::new(&base).unwrap();
    let mut kernel = Kernel::new(1);
    kernel.perform(view.set(1, 100));
    kernel.perform(view.set(2, 200));
    assert_eq!(kernel.get(&view, 2), None);
    assert_eq!(kernel.get(&view, 1), Some(100));
}

fn covers(stored: &LPMTrieKey, query: &LPMTrieKey) -> bool {
    if stored.prefixlen > query.prefixlen {
        return false;
    }
    (0..stored.prefixlen as usize).all(|bit| {
        let mask = 0x80u8 >> (bit % 8);
        stored.data[bit / 8] & mask == query.data[bit / 8] & mask
    })
}

/// A stand-in for the kernel side of a prefix-keyed map.
fn perform_prefix(
    entries: &mut Vec<(LPMTrieKey, u32)>,
    call: Call<&LPMTrieKey, u32>,
) -> (i32, u32) {
    match call {
        Call::Update { key, value, .. } => {
            entries.push((key.clone(), value));
            (0, 0)
        }
        Call::Lookup { key, .. } => {
            let mut best: Option<&(LPMTrieKey, u32)> = None;
            for entry in entries.iter() {
                if covers(&entry.0, key) && best.map_or(true, |b| b.0.prefixlen < entry.0.prefixlen)
                {
                    best = Some(entry);
                }
            }
            match best {
                Some(entry) => (0, entry.1),
                None => (-1, 0),
            }
        }
        Call::Delete { key, .. } => {
            entries.retain(|entry| entry.0.prefixlen != key.prefixlen || entry.0.data != key.data);
            (0, 0)
        }
        _ => (-1, 0),
    }
}

#[test]
fn prefix_map_scenario() {
    let base = descriptor(8, 4, 10);
    let view = LPMTrieMap::<u64, u32>::new(&base).unwrap();
    let mut entries = Vec::new();
    let key = LPMTrieKey { prefixlen: 24, data: vec![192, 168, 1, 0] };
    perform_prefix(&mut entries, view.set(&key, 10));
    let same = LPMTrieKey { prefixlen: 24, data: vec![192, 168, 1, 0] };
    let (ret, value) = perform_prefix(&mut entries, view.lookup(&same));
    assert_eq!(view.get(ret, value), Some(10));
    let other = LPMTrieKey { prefixlen: 24, data: vec![10, 0, 0, 0] };
    let (ret, value) = perform_prefix(&mut entries, view.lookup(&other));
    assert_eq!(view.get(ret, value), None);
    perform_prefix(&mut entries, view.delete(&key));
    let (ret, value) = perform_prefix(&mut entries, view.lookup(&same));
    assert_eq!(view.get(ret, value), None);
}

#[test]
fn prefix_calls_hand_the_key_on_unchanged() {
    let base = descriptor(8, 4, 10);
    let view = LPMTrieMap::<u64, u32>::new(&base).unwrap();
    let key = LPMTrieKey { prefixlen: 40, data: vec![1, 2] };
    match view.set(&key, 9) {
        Call::Update { fd, key: sent, value, flags } => {
            assert_eq!((fd, value, flags), (3, 9, 0));
            assert_eq!(sent.prefixlen, 40);
            assert_eq!(sent.data, vec![1, 2]);
        }
        _ => panic!("not an update"),
    }
    assert!(matches!(view.lookup(&key), Call::Lookup { fd: 3, slots: 1, .. }));
    assert!(matches!(view.delete(&key), Call::Delete { fd: 3, .. }));
}

#[test]
fn prefix_key_holds_its_bits() {
    assert!(LPMTrieKey { prefixlen: 24, data: vec![192, 168, 1, 0] }.is_wf());
    assert!(LPMTrieKey { prefixlen: 32, data: vec![192, 168, 1, 0] }.is_wf());
    assert!(!LPMTrieKey { prefixlen: 33, data: vec![192, 168, 1, 0] }.is_wf());
    assert!(LPMTrieKey { prefixlen: 0, data: vec![] }.is_wf());
    assert!(!LPMTrieKey { prefixlen: 1, data: vec![] }.is_wf());
    assert!(LPMTrieKey { prefixlen: 1, data: vec![0x80] }.is_wf());
    assert!(!LPMTrieKey { prefixlen: u32::MAX, data: vec![0; 16] }.is_wf());
}

#[test]
fn per_unit_get_has_one_value_per_unit() {
    let base = descriptor(4, 8, 10);
    let view = PerCPUArrayMap::<u32, u64>::new(&base).unwrap();
    let cores = num_cpu_cores(&[0, 1, 2, 3]);
    assert_eq!(cores, 4);
    assert!(matches!(view.set(2, 5), Call::Update { fd: 3, key: 2, value: 5, flags: 0 }));
    assert!(matches!(view.lookup(2, cores), Call::Lookup { fd: 3, key: 2, slots: 4 }));
    let found = view.get(0, vec![5, 0, 0, 7], cores).unwrap();
    assert_eq!(found.len(), cores);
    assert_eq!(found, vec![5, 0, 0, 7]);
    assert_eq!(view.get(-1, vec![5, 0, 0, 7], cores), None);
    assert_eq!(view.get(0, vec![5, 0, 0], cores), None);
}

#[test]
fn per_unit_buffer_is_sized_by_units() {
    let base = descriptor(4, 8, 10);
    let view = PerCPUArrayMap::<u32, u64>::new(&base).unwrap();
    assert_eq!(view.buffer_len(4), Some(32));
    assert_eq!(view.buffer_len(0), Some(0));
    assert_eq!(view.buffer_len(usize::MAX), None);
    assert_eq!(view.buffer_len(usize::MAX / 8), Some(usize::MAX / 8 * 8));
}

#[test]
fn per_unit_cursor_asks_for_every_unit() {
    let base = descriptor(4, 8, 10);
    let view = PerCPUArrayMap::<u32, u64>::new(&base).unwrap();
    let mut cursor = view.iter();
    assert!(matches!(
        cursor.next(Event::Begin, 2),
        Step::Ask(Call::FirstKey { fd: 3, key_size: 4 })
    ));
    assert_eq!(cursor.get_first_key(0, 0), Some(0));
    assert_eq!(cursor.get_next_key(-1, 0), None);
    assert!(matches!(
        cursor.next(Event::Key(Some(0)), 2),
        Step::Ask(Call::Lookup { fd: 3, key: 0, slots: 2 })
    ));
    match cursor.next(Event::Value(view.get(0, vec![11, 12], 2)), 2) {
        Step::Yield(key, values) => {
            assert_eq!(key, 0);
            assert_eq!(values, vec![11, 12]);
        }
        _ => panic!("no entry"),
    }
    assert!(matches!(cursor.next(Event::Begin, 2), Step::Ask(Call::NextKey { fd: 3, key: 0 })));
    assert!(matches!(cursor.next(Event::Key(None), 2), Step::Done));
}

#[test]
fn unit_count_is_the_number_of_online_units() {
    assert_eq!(num_cpu_cores(&[]), 0);
    assert_eq!(num_cpu_cores(&[0]), 1);
    assert_eq!(num_cpu_cores(&[0, 1, 2, 5, 6, 7]), 6);
}

#[test]
fn prefix_key_is_laid_out_length_first() {
    let key = LPMTrieKey { prefixlen: 24, data: vec![192, 168, 1, 0] };
    assert_eq!(key.to_bytes(), vec![24, 0, 0, 0, 192, 168, 1, 0]);
    let wide = LPMTrieKey { prefixlen: 0x0102_0304, data: vec![] };
    assert_eq!(wide.to_bytes(), vec![4, 3, 2, 1]);
    assert_eq!(read_field(&wide.to_bytes(), 0), 0x0102_0304);
    let most = LPMTrieKey { prefixlen: u32::MAX, data: vec![7] };
    assert_eq!(most.to_bytes(), vec![255, 255, 255, 255, 7]);
}

#[test]
fn writes_to_other_keys_leave_a_value() {
    let base = descriptor(4, 4, 10);
    let view = HashMap::<u32, u32>::new(&base).unwrap();
    let mut kernel = Kernel::new(10);
    kernel.perform(view.set(1, 100));
    kernel.perform(view.set(2, 200));
    kernel.perform(view.set(3, 300));
    kernel.perform(view.delete(2));
    kernel.perform(view.set(3, 301));
    assert_eq!(kernel.get(&view, 1), Some(100));
    assert_eq!(kernel.enumerate(&view), vec![(1, 100), (3, 301)]);
}

#[test]
fn finished_cursor_does_not_start_over() {
    let base = descriptor(4, 4, 10);
    let view = HashMap::<u32, u32>::new(&base).unwrap();
    let mut last: Option<u32> = Some(4);
    let step: Step<u32, u32, u32> = advance(3, 4, 1, &mut last, Event::Key(None));
    assert!(matches!(step, Step::Done));
    assert_eq!(last, Some(4));
    let mut kernel = Kernel::new(10);
    kernel.perform(view.set(1, 100));
    kernel.perform(view.set(2, 200));
    let (pairs, late) = drive_past_end(&mut kernel, &view);
    assert_eq!(pairs, vec![(1, 100), (2, 200)]);
    assert_eq!(late, 0);
}

/// Runs a pass to its end, then asks twice more; returns the pass and the
/// number of entries that came after its end.
fn drive_past_end(kernel: &mut Kernel, view: &HashMap<u32, u32>) -> (Vec<(u32, u32)>, usize) {
    let mut cursor = view.iter();
    let mut pairs = Vec::new();
    let mut late: usize = 0;
    let mut ended: usize = 0;
    while ended < 3 {
        let mut step = cursor.next(Event::Begin);
        loop {
            match step {
                Step::Ask(call) => {
                    let lookup = matches!(call, Call::Lookup { .. });
                    let (ret, out) = kernel.perform(call);
                    let event = if lookup {
                        Event::Value(view.get(ret, out))
                    } else {
                        Event::Key(cursor.get_next_key(ret, out))
                    };
                    step = cursor.next(event);
                }
                Step::Yield(key, value) => {
                    if ended > 0 {
                        late += 1;
                    } else {
                        pairs.push((key, value));
                    }
                    break;
                }
                Step::Done => {
                    ended += 1;
                    break;
                }
            }
        }
    }
    (pairs, late)
}
