use hablara::{frame_samples_for, FrameChunker};

#[test]
fn chunker_emits_whole_frames() {
    let mut c: FrameChunker<i32> = FrameChunker::new(3);
    let f = c.push(&[1, 2, 3, 4, 5, 6, 7]);
    assert_eq!(f, vec![vec![1, 2, 3], vec![4, 5, 6]]);
    assert_eq!(c.pending_len(), 1);
    let g = c.push(&[8, 9]);
    assert_eq!(g, vec![vec![7, 8, 9]]);
    assert!(c.push(&[]).is_empty());
    assert_eq!(c.finish(0), None);
}

#[test]
fn chunker_finish_pads() {
    let mut c: FrameChunker<f32> = FrameChunker::new(4);
    assert!(c.push(&[0.5]).is_empty());
    assert_eq!(c.finish(0.0), Some(vec![0.5, 0.0, 0.0, 0.0]));
    assert_eq!(c.pending_len(), 0);
}

#[test]
fn frame_samples_rounding() {
    assert_eq!(frame_samples_for(16000, 30), 480);
    assert_eq!(frame_samples_for(44100, 30), 1323);
    assert_eq!(frame_samples_for(22050, 1), 22);
    assert_eq!(frame_samples_for(1500, 1), 2);
}
