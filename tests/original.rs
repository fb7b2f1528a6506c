use russembly::cpu::CPU;

#[test]
fn main_add() {
    let mut cpu = match CPU::new() {
        Ok(x) => x,
        Err(err) => {
            println!("{}", err);
            return;
        }
    };
    let _cpu2 = match CPU::new() {
        Ok(x) => x,
        Err(err) => {
            println!("{}", err);
            return;
        }
    };
    let mut cpu3 = match CPU::new() {
        Ok(x) => x,
        Err(err) => {
            println!("{}", err);
            return;
        }
    };
    // Integer Register
    cpu.mov(0, 10);
    cpu.mova(8);
    cpu.addp(0);
    assert_eq!(cpu.get_accumulator(), &18);
    // Stack
    cpu.push_to_stack(10);
    cpu.push_to_stack(8);
    cpu.add();
    assert_eq!(cpu.pop_from_stack(), Some(18));

    cpu3.push_to_stack(10);
    println!("{:?}", cpu3)
}

#[test]
fn max_usize() {
    let mut cpu = match CPU::new() {
        Ok(x) => x,
        Err(err) => {
            println!("{}", err);
            return;
        }
    };

    for i in 0..usize::BITS {
        cpu.setb(format!("P0^{i}"));
    }
    assert_eq!(cpu.get_port(0), usize::MAX as i128) // 18446744073709551615
}

#[test]
fn split() {
    let test = vec![
        vec!["loop".to_string(), "{".to_string()],
        vec!["prnt".to_string(), "A".to_string()],
        vec!["}".to_string()],
    ];
    let mut split: Vec<String> = vec![];
    for x in test {
        split.push(x.join(" "));
    }
    assert_eq!(split, vec!["loop {", "prnt A", "}"]);
}
