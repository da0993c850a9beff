use gyan85::constants::{Constants, Decodable, Encodable};
use gyan85::syscall::Syscall;

#[test]
fn test_decode_one_syscall() {
    let consts = Constants::default();
    assert_eq!(
        Vec::<Syscall>::decode(consts.syscall.READ_MEMORY, consts).unwrap(),
        vec![Syscall::ReadMemory]
    );
}

#[test]
fn test_decode_multiple_syscalls() {
    let consts = Constants::default();
    assert_eq!(
        Vec::<Syscall>::decode(
            consts.syscall.OPEN | consts.syscall.READ_MEMORY | consts.syscall.WRITE | consts.syscall.EXIT,
            consts
        )
        .unwrap(),
        vec![Syscall::Open, Syscall::ReadMemory, Syscall::Write, Syscall::Exit]
    );
}

#[test]
fn syscall_set_encodes_to_union_of_bits() {
    let consts = Constants::default();
    let set = vec![Syscall::Write, Syscall::Open];
    assert_eq!(set.encode(consts), consts.syscall.WRITE | consts.syscall.OPEN);
    assert_eq!(Vec::<Syscall>::new().encode(consts), 0);
}

#[test]
fn syscall_decodes_exact_number_only() {
    let consts = Constants::default();
    assert_eq!(Syscall::decode(consts.syscall.SLEEP, consts), Ok(Syscall::Sleep));
    assert!(Syscall::decode(consts.syscall.SLEEP | consts.syscall.EXIT, consts).is_err());
    assert_eq!(Syscall::Exit.encode(consts), consts.syscall.EXIT);
}
