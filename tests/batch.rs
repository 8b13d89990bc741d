use txcv::batch::OrderedBatch;
use txcv::output::{layout, render_plain};
use txcv::resolve::{detected_source, resolve, translate_request};

#[test]
fn output_follows_input_order_whatever_the_arrival_order() {
    let n = 5;
    let arrivals = [3usize, 0, 4, 1, 2];
    let mut b: OrderedBatch<usize> = OrderedBatch::new(n);
    let mut out = Vec::new();
    for i in arrivals {
        b.complete(i, i * 10);
        out.extend(b.drain_ready());
    }
    assert!(b.is_finished());
    assert_eq!(out, vec![0, 10, 20, 30, 40]);
}

#[test]
fn nothing_leaves_before_the_first_job() {
    let mut b: OrderedBatch<&str> = OrderedBatch::new(3);
    b.complete(2, "c");
    b.complete(1, "b");
    assert_eq!(b.pop_ready(), None);
    assert!(b.drain_ready().is_empty());
    b.complete(0, "a");
    assert_eq!(b.pop_ready(), Some("a"));
    assert_eq!(b.drain_ready(), vec!["b", "c"]);
    assert_eq!(b.pop_ready(), None);
    assert!(b.is_finished());
}

#[test]
fn empty_batch_is_finished() {
    let mut b: OrderedBatch<u8> = OrderedBatch::new(0);
    assert_eq!(b.len(), 0);
    assert!(b.is_finished());
    assert!(b.drain_ready().is_empty());
}

#[test]
fn first_failure_stops_emission() {
    let mut b: OrderedBatch<Result<&str, &str>> = OrderedBatch::new(3);
    b.complete(2, Ok("c"));
    b.complete(1, Err("boom"));
    b.complete(0, Ok("a"));
    let mut printed = Vec::new();
    let mut failed = None;
    for r in b.drain_ready() {
        match r {
            Ok(v) => printed.push(v),
            Err(e) => {
                failed = Some(e);
                break;
            }
        }
    }
    assert_eq!(printed, vec!["a"]);
    assert_eq!(failed, Some("boom"));
}

#[test]
fn hello_world_end_to_end() {
    let words = vec!["hello".to_string(), "world".to_string()];
    let answers = ["你好", "世界"];
    let mut b: OrderedBatch<(String, String)> = OrderedBatch::new(words.len());
    let mut lines = Vec::new();
    // The second word's answer arrives first.
    for i in [1usize, 0] {
        let source = detected_source(Ok("en".to_string())).unwrap();
        let decision = resolve(source, None);
        assert_eq!(decision.target, "zh");
        let request = translate_request(words[i].clone(), decision);
        assert_eq!(request.target, "zh");
        b.complete(i, (request.source_text, answers[i].to_string()));
        for (word, translated) in b.drain_ready() {
            let l = layout(&word, &translated, None);
            lines.push(render_plain(&word, &translated, l, false));
        }
    }
    assert_eq!(lines, vec!["hello -> 你好".to_string(), "world -> 世界".to_string()]);
}

#[test]
fn drain_stops_at_first_failure() {
    let mut b: OrderedBatch<Result<&str, &str>> = OrderedBatch::new(4);
    b.complete(3, Ok("d"));
    b.complete(1, Err("boom"));
    b.complete(2, Ok("c"));
    assert_eq!(b.drain_until_failure(), (vec![], None));
    b.complete(0, Ok("a"));
    assert_eq!(b.drain_until_failure(), (vec!["a"], Some("boom")));
}

#[test]
fn drain_without_failure_hands_out_all_ready() {
    let mut b: OrderedBatch<Result<u32, String>> = OrderedBatch::new(3);
    b.complete(0, Ok(1));
    b.complete(1, Ok(2));
    assert_eq!(b.drain_until_failure(), (vec![1, 2], None));
    assert!(!b.is_finished());
    b.complete(2, Ok(3));
    assert_eq!(b.drain_until_failure(), (vec![3], None));
    assert!(b.is_finished());
}
