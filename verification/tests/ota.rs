use foc_rust::boot;
use foc_rust::drivers::flash::{self, FlashError, FlashOp, FlashOutcome};
use foc_rust::ota::crc::crc32_update;
use foc_rust::ota::{
    self, handle_request_download, handle_transfer_data, handle_transfer_exit, Ota, OtaState,
    take_reset_request, OtaStep,
};

const BASE: usize = 0x0800_0000;

struct Flash {
    mem: Vec<u8>,
    fail_at: Option<usize>,
    ops: usize,
}

impl Flash {
    fn new() -> Flash {
        Flash { mem: vec![0u8; 0x2_0000], fail_at: None, ops: 0 }
    }

    fn run(&mut self, op: FlashOp) -> FlashOutcome {
        let fails = self.fail_at == Some(self.ops);
        self.ops += 1;
        match op {
            FlashOp::Erase { start, end } => {
                if fails {
                    return FlashOutcome::Done(Err(FlashError::ProgramError));
                }
                for page in flash::pages_to_erase(start, end) {
                    let at = page as usize * 2048;
                    for b in &mut self.mem[at..at + 2048] {
                        *b = 0xFF;
                    }
                }
                FlashOutcome::Done(Ok(()))
            }
            FlashOp::Write { offset, region_start, region_end, value } => {
                if let Err(e) = flash::check_write(offset, region_start, region_end) {
                    panic!("refused write: {:?}", e);
                }
                if fails {
                    return FlashOutcome::Done(Err(FlashError::ProgramError));
                }
                let at = offset as usize - BASE;
                self.mem[at..at + 8].copy_from_slice(&value.to_le_bytes());
                FlashOutcome::Done(Ok(()))
            }
            FlashOp::Read { start, len } => {
                let mut words = Vec::new();
                let mut at = start as usize - BASE;
                for _ in 0..(len + 3) / 4 {
                    let w = [self.mem[at], self.mem[at + 1], self.mem[at + 2], self.mem[at + 3]];
                    words.push(u32::from_le_bytes(w));
                    at += 4;
                }
                FlashOutcome::Words(words)
            }
        }
    }

    fn settle(&mut self, ota: &mut Ota, mut step: OtaStep) -> Vec<u8> {
        loop {
            match step {
                OtaStep::Reply(reply) => return reply,
                OtaStep::Flash(op) => {
                    let outcome = self.run(op);
                    step = ota::resume(ota, outcome);
                }
            }
        }
    }
}

fn announce(ota: &mut Ota, f: &mut Flash, size: u32) -> Vec<u8> {
    let mut payload = vec![0u8];
    payload.extend_from_slice(&size.to_le_bytes());
    let step = handle_request_download(ota, &payload);
    f.settle(ota, step)
}

fn send(ota: &mut Ota, f: &mut Flash, block: &[u8]) -> Vec<u8> {
    let step = handle_transfer_data(ota, block);
    f.settle(ota, step)
}

fn close(ota: &mut Ota, f: &mut Flash) -> Vec<u8> {
    let step = handle_transfer_exit(ota, &[]);
    f.settle(ota, step)
}

fn send_image(ota: &mut Ota, f: &mut Flash, image: &[u8]) {
    for (k, pair) in image.chunks(2).enumerate() {
        let seq = (k + 1) as u8;
        let b1 = if pair.len() == 2 { pair[1] } else { 0xFF };
        assert_eq!(send(ota, f, &[seq, pair[0], b1]), vec![0x76, seq]);
    }
}

fn image_of(len: usize) -> Vec<u8> {
    (0..len).map(|i| (i * 7 + 3) as u8).collect()
}

#[test]
fn crc_check_value() {
    let mut c = 0xFFFF_FFFFu32;
    for b in "123456789".bytes() {
        c = crc32_update(c, b);
    }
    assert_eq!(c ^ 0xFFFF_FFFF, 0xCBF4_3926);
}

#[test]
fn state_numbers() {
    assert_eq!(OtaState::from_u8(0), OtaState::Idle);
    assert_eq!(OtaState::from_u8(1), OtaState::Receiving);
    assert_eq!(OtaState::from_u8(2), OtaState::Done);
    assert_eq!(OtaState::from_u8(9), OtaState::Idle);
}

#[test]
fn whole_download_is_installed() {
    for len in [2usize, 8, 10, 600, 1024] {
        let mut ota = Ota::new();
        let mut f = Flash::new();
        let image = image_of(len);
        assert_eq!(announce(&mut ota, &mut f, len as u32), vec![0x74, 0, 0, 2]);
        assert_eq!(ota.state, OtaState::Receiving);
        send_image(&mut ota, &mut f, &image);
        assert_eq!(close(&mut ota, &mut f), vec![0x77]);
        assert_eq!(ota.state, OtaState::Done);
        assert_eq!(&f.mem[0x1_3000..0x1_3000 + len], &image[..]);
        assert_eq!(&f.mem[0x6000..0x6008], &[0xF0, 0, 0, 0, 0, 0, 0, 0]);
        assert!(ota::take_reset_request(&mut ota));
        assert!(!ota::take_reset_request(&mut ota));
    }
}

#[test]
fn trailing_bytes_are_padded() {
    let mut ota = Ota::new();
    let mut f = Flash::new();
    announce(&mut ota, &mut f, 10);
    send_image(&mut ota, &mut f, &image_of(10));
    assert_eq!(close(&mut ota, &mut f), vec![0x77]);
    assert_eq!(&f.mem[0x1_300A..0x1_3010], &[0xFF; 6]);
}

#[test]
fn download_request_refusals() {
    let mut ota = Ota::new();
    let mut f = Flash::new();
    let step = handle_request_download(&mut ota, &[0, 1, 0, 0]);
    assert_eq!(f.settle(&mut ota, step), vec![0x7F, 0x34, 0x13]);
    let step = handle_request_download(&mut ota, &[1, 1, 0, 0, 0]);
    assert_eq!(f.settle(&mut ota, step), vec![0x7F, 0x34, 0x13]);
    assert_eq!(announce(&mut ota, &mut f, 0), vec![0x7F, 0x34, 0x31]);
    assert_eq!(announce(&mut ota, &mut f, 51201), vec![0x7F, 0x34, 0x31]);
    assert_eq!(announce(&mut ota, &mut f, 51200), vec![0x74, 0, 0, 2]);
    assert_eq!(announce(&mut ota, &mut f, 2), vec![0x7F, 0x34, 0x22]);
}

#[test]
fn failed_erase_is_reported() {
    let mut ota = Ota::new();
    let mut f = Flash::new();
    f.fail_at = Some(0);
    assert_eq!(announce(&mut ota, &mut f, 16), vec![0x7F, 0x34, 0x72]);
    assert_eq!(ota.state, OtaState::Idle);
}

#[test]
fn transfer_refusals() {
    let mut ota = Ota::new();
    let mut f = Flash::new();
    assert_eq!(send(&mut ota, &mut f, &[1, 2, 3]), vec![0x7F, 0x36, 0x22]);
    announce(&mut ota, &mut f, 2);
    assert_eq!(send(&mut ota, &mut f, &[1, 2]), vec![0x7F, 0x36, 0x13]);
    assert_eq!(send(&mut ota, &mut f, &[2, 2, 3]), vec![0x7F, 0x36, 0x73]);
    assert_eq!(send(&mut ota, &mut f, &[1, 2, 3]), vec![0x76, 1]);
    assert_eq!(send(&mut ota, &mut f, &[2, 2, 3]), vec![0x7F, 0x36, 0x31]);
    assert_eq!(ota.state, OtaState::Idle);
}

#[test]
fn failed_write_ends_the_transfer() {
    let mut ota = Ota::new();
    let mut f = Flash::new();
    f.fail_at = Some(1);
    announce(&mut ota, &mut f, 16);
    for seq in 1..=3u8 {
        assert_eq!(send(&mut ota, &mut f, &[seq, 0, 0]), vec![0x76, seq]);
    }
    assert_eq!(send(&mut ota, &mut f, &[4, 0, 0]), vec![0x7F, 0x36, 0x72]);
    assert_eq!(ota.state, OtaState::Idle);
}

#[test]
fn block_sequence_wraps() {
    let mut ota = Ota::new();
    let mut f = Flash::new();
    let image = image_of(600);
    announce(&mut ota, &mut f, 600);
    send_image(&mut ota, &mut f, &image);
    assert_eq!(ota.next_block_seq, (301 % 256) as u8);
}

#[test]
fn exit_refusals() {
    let mut ota = Ota::new();
    let mut f = Flash::new();
    assert_eq!(close(&mut ota, &mut f), vec![0x7F, 0x37, 0x22]);
    announce(&mut ota, &mut f, 16);
    let step = handle_transfer_exit(&mut ota, &[0]);
    assert_eq!(f.settle(&mut ota, step), vec![0x7F, 0x37, 0x13]);
    assert_eq!(ota.state, OtaState::Receiving);
    send_image(&mut ota, &mut f, &image_of(8));
    assert_eq!(close(&mut ota, &mut f), vec![0x7F, 0x37, 0x72]);
    assert_eq!(ota.state, OtaState::Idle);
}

#[test]
fn image_seven_bytes_short_fails_the_checksum() {
    let mut ota = Ota::new();
    let mut f = Flash::new();
    announce(&mut ota, &mut f, 16);
    send_image(&mut ota, &mut f, &image_of(10));
    assert_eq!(close(&mut ota, &mut f), vec![0x7F, 0x37, 0x72]);
    assert!(!ota::take_reset_request(&mut ota));
}

#[test]
fn odd_image_size_fails_the_checksum() {
    let mut ota = Ota::new();
    let mut f = Flash::new();
    announce(&mut ota, &mut f, 9);
    send_image(&mut ota, &mut f, &image_of(9));
    assert_eq!(close(&mut ota, &mut f), vec![0x7F, 0x37, 0x72]);
}

#[test]
fn corrupted_byte_is_refused() {
    let mut ota = Ota::new();
    let mut f = Flash::new();
    announce(&mut ota, &mut f, 32);
    send_image(&mut ota, &mut f, &image_of(32));
    f.mem[0x1_3005] ^= 0x10;
    assert_eq!(close(&mut ota, &mut f), vec![0x7F, 0x37, 0x72]);
    assert!(!ota::take_reset_request(&mut ota));
    assert_eq!(ota.state, OtaState::Idle);
}

#[test]
fn failed_mark_is_reported() {
    for failing in [6usize, 7] {
        let mut ota = Ota::new();
        let mut f = Flash::new();
        f.fail_at = Some(failing);
        announce(&mut ota, &mut f, 32);
        send_image(&mut ota, &mut f, &image_of(32));
        assert_eq!(close(&mut ota, &mut f), vec![0x7F, 0x37, 0x72]);
        assert!(!ota::take_reset_request(&mut ota));
    }
}

#[test]
fn boot_confirmation_fills_the_word() {
    let mut f = Flash::new();
    for op in boot::mark_booted() {
        f.run(op);
    }
    assert_eq!(&f.mem[0x6000..0x6008], &[0xD0; 8]);
    assert_eq!(f.mem[0x6008], 0xFF);
}

#[test]
fn image_more_than_seven_bytes_short_is_given_up() {
    let mut f = Flash::new();
    let mut ota = Ota::new();
    announce(&mut ota, &mut f, 20);
    send_image(&mut ota, &mut f, &image_of(12));
    assert_eq!(close(&mut ota, &mut f), vec![0x7F, 0x37, 0x72]);
    assert_eq!(ota.state, OtaState::Idle);
    assert!(!take_reset_request(&mut ota));
}

#[test]
fn checksum_can_be_taken_in_parts() {
    let whole = image_of(9).iter().fold(0xFFFF_FFFF, |c, b| crc32_update(c, *b));
    let first = image_of(9)[..4].iter().fold(0xFFFF_FFFF, |c, b| crc32_update(c, *b));
    let both = image_of(9)[4..].iter().fold(first, |c, b| crc32_update(c, *b));
    assert_eq!(whole, both);
}
