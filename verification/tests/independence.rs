use amx::{Amx, AmxEmuCtx, XBytes, XRow, YBytes, YRow, ZRow};

fn fill(ctx: &mut AmxEmuCtx, seed: u8) {
    let mut x: [u8; 64] = [0u8; 64];
    let mut y: [u8; 64] = [0u8; 64];
    let mut i: usize = 0;
    while i < 64 {
        x[i] = seed.wrapping_add(i as u8);
        y[i] = seed.wrapping_mul(3).wrapping_add(i as u8);
        i += 1;
    }
    ctx.load512(&x, XRow(0));
    ctx.load512(&y, YRow(0));
}

fn alone(seed: u8, rounds: usize) -> [u8; 4096] {
    let mut ctx: AmxEmuCtx = AmxEmuCtx::new();
    fill(&mut ctx, seed);
    let mut r: usize = 0;
    while r < rounds {
        ctx.outer_product_i16_xy_to_z(Some(XBytes(0)), Some(YBytes(0)), ZRow(0), true);
        ctx.outer_product_i16_xy_to_z(Some(XBytes(0)), Some(YBytes(0)), ZRow(1), true);
        r += 1;
    }
    ctx.read_z()
}

#[test]
fn register_files_do_not_see_each_other() {
    let n: usize = 6;
    let rounds: usize = 20;
    let mut all: Vec<AmxEmuCtx> = Vec::new();
    let mut t: usize = 0;
    while t < n {
        let mut ctx: AmxEmuCtx = AmxEmuCtx::new();
        fill(&mut ctx, 10 + t as u8);
        all.push(ctx);
        t += 1;
    }
    // Every register file takes its turn in every round.
    let mut r: usize = 0;
    while r < rounds {
        t = 0;
        while t < n {
            all[t].outer_product_i16_xy_to_z(Some(XBytes(0)), Some(YBytes(0)), ZRow(0), true);
            all[t].outer_product_i16_xy_to_z(Some(XBytes(0)), Some(YBytes(0)), ZRow(1), true);
            t += 1;
        }
        r += 1;
    }
    t = 0;
    while t < n {
        assert_eq!(all[t].read_z(), alone(10 + t as u8, rounds));
        t += 1;
    }
    assert_ne!(all[0].read_z(), all[1].read_z());
}
