#![allow(non_camel_case_types)]
#![allow(non_snake_case)]
#![allow(non_upper_case_globals)]
#![allow(unused_variables)]
use rust_rsm::common::atomicqueue::AtomicDequeue;
use rust_rsm::common::bitmap::bitmap_t;
use rust_rsm::common::tsidallocator::TsIdAllocator;
use rust_rsm::common::{self, tsmap, tsmap::TsHashMap, tsqueue::TsDequeue};
use std::collections::{HashMap, VecDeque};
use std::sync::Mutex;
use rust_rsm::net_ext::restserver;

#[test]
fn test_get_path() {
    let url = "https://www.example.com/aaa/ccc";
    let res = restserver::get_url_path(url);
    let path = match res {
        Ok(s) => s,
        Err(r) => panic!("Error get path from url {}, code {}", url, r),
    };
    assert_eq!(path, "/aaa/ccc");
    println!("return path is {}", path);
}

#[test]
fn test_tsmap() {
    let mut map: TsHashMap<u64, u64> = TsHashMap::new(1024);

    for i in 1..1024 {
        map.insert(i, i);
    }
    println!("map len={},capacity={}", map.len(), map.capacity());
    map.remove(&1);
    println!("map len={},capacity={}", map.len(), map.capacity());
}

#[test]
fn test_tsqueue() {
    let mut queue: TsDequeue<u64> = TsDequeue::new(1024);

    for i in 1..1024 {
        queue.push_back(i)
    }
    println!("queue len={},capacity={}", queue.len(), queue.capacity());
    queue.pop_front();
    println!("queue len={},capacity={}", queue.len(), queue.capacity());
}

const TEST_CAPACITY: usize = 100000;
#[test]
fn test_map_performance() {
    let map1: Mutex<HashMap<usize, usize>> = Mutex::new(HashMap::with_capacity(TEST_CAPACITY));
    let mut map2: TsHashMap<usize, usize> = TsHashMap::new(TEST_CAPACITY);
    let mut map3: tsmap::TsHashMap<usize, usize> = tsmap::TsHashMap::new(TEST_CAPACITY);
    let mut cur = common::get_now_usec64();
    for i in 0..TEST_CAPACITY {
        map1.lock().unwrap().insert(i, i);
    }
    println!(
        "insert {} item into HashMap,spend {} us\n",
        TEST_CAPACITY,
        common::get_now_usec64() - cur
    );

    cur = common::get_now_usec64();
    for (a, b) in map1.lock().unwrap().iter() {
        let (k, v) = (a, b);
    }

    println!(
        "iterate {} item into HashMap,spend {} us\n",
        TEST_CAPACITY,
        common::get_now_usec64() - cur
    );

    cur = common::get_now_usec64();
    for i in 0..TEST_CAPACITY {
        map1.lock().unwrap().get(&i);
    }
    println!(
        "find {} times from HashMap,spend {} us\n",
        TEST_CAPACITY,
        common::get_now_usec64() - cur
    );

    cur = common::get_now_usec64();
    for i in 0..TEST_CAPACITY {
        map2.insert(i, i);
    }
    println!(
        "insert {} item into TsHashMap,spend {} us\n",
        TEST_CAPACITY,
        common::get_now_usec64() - cur
    );

    cur = common::get_now_usec64();
    for i in 0..TEST_CAPACITY {
        map2.get(&i);
    }
    println!(
        "find {} times from TsHashMap,spend {} us\n",
        TEST_CAPACITY,
        common::get_now_usec64() - cur
    );

    cur = common::get_now_usec64();
    for i in 0..TEST_CAPACITY {
        map3.insert(i, i);
    }
    println!(
        "insert {} item into old TsHashMap,spend {} us\n",
        TEST_CAPACITY,
        common::get_now_usec64() - cur
    );

    cur = common::get_now_usec64();
    for i in 0..TEST_CAPACITY {
        map3.get(&i);
    }
    println!(
        "find {} times from old TsHashMap,spend {} us\n",
        TEST_CAPACITY,
        common::get_now_usec64() - cur
    );
}

const TEST_QUEUE_CAPACITY: usize = 100000;
#[test]
fn test_queue_performance() {
    let mut q: TsDequeue<usize> = TsDequeue::new(TEST_QUEUE_CAPACITY);
    let mut aq: AtomicDequeue<usize> = AtomicDequeue::new(TEST_QUEUE_CAPACITY);
    let mut cur = common::get_now_usec64();
    for i in 0..TEST_QUEUE_CAPACITY {
        q.push_back(i);
    }
    println!(
        "insert {} item into TsQueue,spend {} us\n",
        q.len(),
        common::get_now_usec64() - cur
    );

    cur = common::get_now_usec64();
    for _ in 0..TEST_QUEUE_CAPACITY {
        let a = q.pop_front();
    }
    println!(
        "Pop {} item from tsqueue,spend {} us, current_len={}\n",
        TEST_QUEUE_CAPACITY,
        common::get_now_usec64() - cur,
        q.len()
    );

    cur = common::get_now_usec64();
    for i in 0..TEST_QUEUE_CAPACITY {
        aq.push_back(i);
    }
    println!(
        "insert {} item into Atomic Queue,spend {} us,capacity={}\n",
        aq.len(),
        common::get_now_usec64() - cur,
        aq.capacity()
    );

    cur = common::get_now_usec64();
    for _ in 0..TEST_QUEUE_CAPACITY {
        let popped = aq.pop_front();
    }
    println!(
        "pop {} item from Atomic Queue,spend {} us,cur_len={}\n",
        TEST_QUEUE_CAPACITY,
        common::get_now_usec64() - cur,
        aq.len()
    );

    let mut vq: VecDeque<usize> = VecDeque::with_capacity(TEST_QUEUE_CAPACITY);
    cur = common::get_now_usec64();
    for i in 0..TEST_QUEUE_CAPACITY {
        vq.push_back(i);
    }

    println!(
        "insert {} item into oringin Queue,spend {} us\n",
        vq.len(),
        common::get_now_usec64() - cur
    );
    vq.clear();

    let vq1: VecDeque<usize> = VecDeque::with_capacity(TEST_QUEUE_CAPACITY);
    let lq = Mutex::new(vq1);

    cur = common::get_now_usec64();
    for i in 0..TEST_QUEUE_CAPACITY {
        lq.lock().unwrap().push_back(i);
    }

    println!(
        "insert {} item into oringin locked Queue,spend {} us\n",
        lq.lock().unwrap().len(),
        common::get_now_usec64() - cur
    );
}

const USEC_PER_HOUR: u64 = 1000000 * 3600;
const USEC_PER_DAY: u64 = USEC_PER_HOUR * 24;
#[test]
fn test_date_time() {
    println!(
        "Unix Epoch = {}",
        common::format_datetime(&common::get_time_from_usec(0))
    );
    let mut cur = common::get_now_usec64();
    println!(
        "Current time = {}",
        common::format_datetime(&common::get_time_from_usec(cur))
    );
    cur -= USEC_PER_DAY;
    println!(
        "yestoday time = {}",
        common::format_datetime(&common::get_time_from_usec(cur))
    );
    cur -= USEC_PER_DAY * 364;
    println!(
        "one year ago time = {}",
        common::format_datetime(&common::get_time_from_usec(cur))
    );
}

#[test]
fn test_bit_map() {
    let mut bitmap = bitmap_t::new(32768);

    for i in 0..32768 {
        if i % 2 == 0 {
            bitmap.set_bitmap(i);
        }
    }
    println!("bitmap status {}", bitmap.to_string());
    assert_eq!(bitmap.get_used_count(), 32768 / 2);

    for i in 0..32768 {
        if i % 2 == 0 {
            if !bitmap.is_bit_set(i) {
                let (v, b) = bitmap.get_u64_by_index(i as usize);
                println!(
                    "error occured,i={},u64={:#0x},test_bits={:#0x},not_test:{:#0x}",
                    i, v, b, !b
                );
            }
            assert_eq!(bitmap.is_bit_set(i), true);
            bitmap.unset_bitmap(i);
        }
    }
    println!("bitmap status {}", bitmap.to_string());
    assert_eq!(bitmap.get_used_count(), 0);
}

#[test]
fn test_tsidallocator() {
    let mut ids = TsIdAllocator::new(1, 1024);

    for i in 1..1025 {
        let id = ids.allocate_id();
        println!("i={},allocated id={},", i, id);
        assert_eq!(id, i as i32);
    }

    for i in 1..1025 {
        ids.release_id(i);
        assert_eq!(ids.used_count(), (1024 - i) as i32);
    }

    for i in 1..1024 {
        let id1 = ids.allocate_id();
        println!("i={},allocated id={},", i, id1);
        ids.release_id(id1);

        assert_eq!(ids.used_count(), 0);
    }
}
