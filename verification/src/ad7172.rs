//! Register-protocol driver for the AD7172 ADC.
//!
//! The driver owns a serial bus handle and a chip-select line. It frames
//! register reads and writes, performs the reset/identify/configure
//! bring-up handshake and decodes conversion results into a
//! (value, channel tag) pair. Every contract states the exact frames put
//! on the bus; the bytes a read returns are the device's choice and are
//! related to the decoded value through the bus model.

use vstd::prelude::*;
use vstd::arithmetic::power2::pow2;
use crate::bus::ChipSelect;
use crate::bus::DelayUs;
use crate::bus::SpiBus;
use crate::frames::be_bytes_of;
use crate::frames::be_value;
use crate::frames::decode_be;
use crate::frames::encode_be;
use crate::frames::lemma_be_round_trip;

verus! {

/// ADC register addresses.
#[allow(non_camel_case_types)]
#[derive(Clone, Copy)]
pub enum AdcReg {
    STATUS,
    ADCMODE,
    IFMODE,
    DATA,
    ID,
    FILTCON0,
    FILTCON1,
    FILTCON2,
    FILTCON3,
    CH0,
    CH1,
    CH2,
    CH3,
    SETUPCON0,
    SETUPCON1,
    SETUPCON2,
    SETUPCON3,
    OFFSET0,
    OFFSET1,
    OFFSET2,
    OFFSET3,
    GAIN0,
    GAIN1,
    GAIN2,
    GAIN3,
}

impl AdcReg {
    /// Numeric register address.
    pub open spec fn addr_spec(self) -> u8 {
        match self {
            AdcReg::STATUS => 0x00,
            AdcReg::ADCMODE => 0x01,
            AdcReg::IFMODE => 0x02,
            AdcReg::DATA => 0x04,
            AdcReg::ID => 0x07,
            AdcReg::FILTCON0 => 0x28,
            AdcReg::FILTCON1 => 0x29,
            AdcReg::FILTCON2 => 0x2a,
            AdcReg::FILTCON3 => 0x2b,
            AdcReg::CH0 => 0x10,
            AdcReg::CH1 => 0x11,
            AdcReg::CH2 => 0x12,
            AdcReg::CH3 => 0x13,
            AdcReg::SETUPCON0 => 0x20,
            AdcReg::SETUPCON1 => 0x21,
            AdcReg::SETUPCON2 => 0x22,
            AdcReg::SETUPCON3 => 0x23,
            AdcReg::OFFSET0 => 0x30,
            AdcReg::OFFSET1 => 0x31,
            AdcReg::OFFSET2 => 0x32,
            AdcReg::OFFSET3 => 0x33,
            AdcReg::GAIN0 => 0x38,
            AdcReg::GAIN1 => 0x39,
            AdcReg::GAIN2 => 0x3a,
            AdcReg::GAIN3 => 0x3b,
        }
    }

    /// Numeric register address.
    pub fn addr(self) -> (r: u8)
        ensures
            r == self.addr_spec(),
    {
        match self {
            AdcReg::STATUS => 0x00,
            AdcReg::ADCMODE => 0x01,
            AdcReg::IFMODE => 0x02,
            AdcReg::DATA => 0x04,
            AdcReg::ID => 0x07,
            AdcReg::FILTCON0 => 0x28,
            AdcReg::FILTCON1 => 0x29,
            AdcReg::FILTCON2 => 0x2a,
            AdcReg::FILTCON3 => 0x2b,
            AdcReg::CH0 => 0x10,
            AdcReg::CH1 => 0x11,
            AdcReg::CH2 => 0x12,
            AdcReg::CH3 => 0x13,
            AdcReg::SETUPCON0 => 0x20,
            AdcReg::SETUPCON1 => 0x21,
            AdcReg::SETUPCON2 => 0x22,
            AdcReg::SETUPCON3 => 0x23,
            AdcReg::OFFSET0 => 0x30,
            AdcReg::OFFSET1 => 0x31,
            AdcReg::OFFSET2 => 0x32,
            AdcReg::OFFSET3 => 0x33,
            AdcReg::GAIN0 => 0x38,
            AdcReg::GAIN1 => 0x39,
            AdcReg::GAIN2 => 0x3a,
            AdcReg::GAIN3 => 0x3b,
        }
    }
}

/// ADC identity mismatch at construction.
#[derive(Clone, Copy, Debug, PartialEq, Eq, Structural)]
pub enum Error {
    AdcId,
}

/// ADCMODE configuration: internal reference, internal clock, no start
/// delay, continuous conversion.
pub const ADCMODE_CFG: u32 = 0x8008;

/// IFMODE configuration: channel-tag reporting on conversion reads only.
pub const IFMODE_CFG: u32 = 0x0040;

/// CH0 configuration: channel enabled, inputs AIN0/AIN1, setup 0.
pub const CH0_CFG: u32 = 0x8001;

/// CH1 configuration: channel enabled, inputs AIN2/AIN3, setup 1.
pub const CH1_CFG: u32 = 0x9043;

/// SETUPCON configuration: unipolar input, buffered reference and analog
/// inputs, external reference.
pub const SETUPCON_CFG: u32 = (1u32 << 11) | (1u32 << 10) | (1u32 << 9) | (1u32 << 8);

/// FILTCON configuration: sinc5/sinc1 filter, ~10 Hz output data rate,
/// 50/60 Hz line rejection enabled.
pub const FILTCON_CFG: u32 = (0b110u32 << 8) | (1u32 << 11) | 0b10011u32;

/// The frame of a register read request: address byte with the read flag,
/// followed by `size` don't-care bytes.
pub open spec fn read_frame(addr: AdcReg, size: nat) -> Seq<u8> {
    Seq::new(size + 1, |i: int| if i == 0 { (addr.addr_spec() | 0x40) as u8 } else { 0u8 })
}

/// The frame of a register write: address byte, then the value big-endian.
pub open spec fn write_frame(addr: AdcReg, size: nat, data: nat) -> Seq<u8> {
    seq![addr.addr_spec()] + be_bytes_of(data, size)
}

/// The 64-high-bits interface reset frame.
pub open spec fn reset_frame() -> Seq<u8> {
    Seq::new(8, |i: int| 0xffu8)
}

/// The frames of the fixed channel/setup/filter configuration, in order.
pub open spec fn setup_frames() -> Seq<Seq<u8>> {
    seq![
        write_frame(AdcReg::CH0, 2, CH0_CFG as nat),
        write_frame(AdcReg::CH1, 2, CH1_CFG as nat),
        write_frame(AdcReg::SETUPCON0, 2, SETUPCON_CFG as nat),
        write_frame(AdcReg::SETUPCON1, 2, SETUPCON_CFG as nat),
        write_frame(AdcReg::FILTCON0, 2, FILTCON_CFG as nat),
        write_frame(AdcReg::FILTCON1, 2, FILTCON_CFG as nat),
    ]
}

/// The frames of the whole bring-up handshake: reset, identity read,
/// mode/interface configuration, then the channel setup.
pub open spec fn bringup_frames() -> Seq<Seq<u8>> {
    seq![
        reset_frame(),
        read_frame(AdcReg::ID, 2),
        write_frame(AdcReg::ADCMODE, 2, ADCMODE_CFG as nat),
        write_frame(AdcReg::IFMODE, 2, IFMODE_CFG as nat),
    ] + setup_frames()
}

/// Register round trip: a device that latches the payload of a write
/// frame and later answers a read of the same width with any bytes of
/// that value returns exactly the written value reduced to the field
/// width.
pub proof fn lemma_register_round_trip(addr: AdcReg, size: nat, data: u32, resp: Seq<u8>)
    requires
        1 <= size <= 3,
        be_value(resp) == be_value(write_frame(addr, size, data as nat).skip(1)),
    ensures
        be_value(resp) == data as nat % pow2(8 * size),
{
    assert(write_frame(addr, size, data as nat).skip(1) =~= be_bytes_of(data as nat, size));
    lemma_be_round_trip(data as nat, size);
}

/// AD7172 driver: a serial bus handle and one chip-select line.
pub struct Ad7172<SPI, CS> {
    spi: SPI,
    cs: CS,
}

impl<SPI: SpiBus, CS: ChipSelect> Ad7172<SPI, CS> {
    /// Frames this driver has put on its bus, oldest first.
    pub closed spec fn frames_sent(&self) -> Seq<Seq<u8>> {
        self.spi.sent()
    }

    /// Byte sequences the device has shifted in, one per full-duplex
    /// transfer, oldest first.
    pub closed spec fn responses(&self) -> Seq<Seq<u8>> {
        self.spi.received()
    }

    /// Whether the chip-select line rests high (deasserted).
    pub closed spec fn cs_high(&self) -> bool {
        self.cs.is_high()
    }

    /// Brings the ADC up: reset, at least 500 microseconds of settling
    /// delay, identity check, then configuration. Succeeds only if the
    /// identity register's low byte has top nibble `0xD`; on a mismatch
    /// construction is aborted before any channel configuration is
    /// written.
    pub fn new<D: DelayUs>(delay: &mut D, spi: SPI, cs: CS) -> (r: Result<Ad7172<SPI, CS>, Error>)
        ensures
            final(delay).delayed_us() >= old(delay).delayed_us() + 500,
            (r matches Ok(adc) ==> {
                &&& adc.frames_sent() == spi.sent() + bringup_frames()
                &&& adc.responses().len() == spi.received().len() + 2
                &&& adc.responses().last().len() == 3
                &&& (be_value(adc.responses().last().skip(1)) % 256) / 16 == 0xd
                &&& adc.cs_high()
            }),
    {
        let mut adc = Ad7172 { spi, cs };
        adc.cs.set_high();
        adc.reset();

        // 500 us minimum settling delay after reset.
        delay.delay_us(5000u16);

        let id = adc.read(AdcReg::ID, 2);
        // The identity register must read 0x00Dx for the AD7172 family.
        if (id % 256) / 16 != 0xd {
            return Err(Error::AdcId);
        }

        adc.write(AdcReg::ADCMODE, 2, ADCMODE_CFG);
        adc.write(AdcReg::IFMODE, 2, IFMODE_CFG);
        adc.setup_channels();

        proof {
            assert(adc.frames_sent() =~= spi.sent() + bringup_frames());
        }
        Ok(adc)
    }

    /// Re-synchronizes the serial interface by driving 64 bit-times high.
    /// Register contents are not restored; configuration must be re-run
    /// before registers are read again.
    pub fn reset(&mut self)
        ensures
            final(self).frames_sent() == old(self).frames_sent().push(reset_frame()),
            final(self).responses().len() == old(self).responses().len() + 1,
            final(self).cs_high(),
    {
        let mut buf: Vec<u8> = Vec::new();
        let mut i: usize = 0;
        while i < 8
            invariant
                i <= 8,
                buf@ =~= Seq::new(i as nat, |j: int| 0xffu8),
            decreases 8 - i,
        {
            buf.push(0xffu8);
            i = i + 1;
        }
        self.cs.set_low();
        self.spi.transfer(&mut buf);
        self.cs.set_high();
        proof {
            assert(old(self).frames_sent().push(reset_frame()) =~= old(
                self,
            ).frames_sent().push(Seq::new(8, |j: int| 0xffu8)));
        }
    }

    /// Reads a register of `size` bytes (at most 4). Exactly one read
    /// frame is put on the bus; the returned value is the big-endian
    /// decoding of the response's last `size` bytes, so it is below
    /// `2^(8*size)`.
    pub fn read(&mut self, addr: AdcReg, size: usize) -> (r: u32)
        requires
            1 <= size <= 4,
        ensures
            final(self).frames_sent() == old(self).frames_sent().push(
                read_frame(addr, size as nat),
            ),
            final(self).responses().len() == old(self).responses().len() + 1,
            final(self).responses().last().len() == size + 1,
            r as nat == be_value(final(self).responses().last().skip(1)),
            (r as nat) < pow2((size * 8) as nat),
            final(self).cs_high(),
    {
        let mut buf: Vec<u8> = Vec::new();
        buf.push(addr.addr() | 0x40);
        let mut i: usize = 0;
        while i < size
            invariant
                i <= size,
                buf@.len() == i + 1,
                buf@[0] == (addr.addr_spec() | 0x40) as u8,
                forall|j: int| 1 <= j < buf@.len() ==> buf@[j] == 0u8,
            decreases size - i,
        {
            buf.push(0u8);
            i = i + 1;
        }
        proof {
            assert(buf@ =~= read_frame(addr, size as nat));
        }
        self.cs.set_low();
        self.spi.transfer(&mut buf);
        self.cs.set_high();
        decode_be(&buf, 1)
    }

    /// Writes a register of `size` bytes (at most 3): the address byte
    /// followed by the value, big-endian, truncated to the field width.
    pub fn write(&mut self, addr: AdcReg, size: usize, data: u32)
        requires
            1 <= size <= 3,
        ensures
            final(self).frames_sent() == old(self).frames_sent().push(
                write_frame(addr, size as nat, data as nat),
            ),
            final(self).responses() == old(self).responses(),
            final(self).cs_high(),
    {
        let mut buf: Vec<u8> = Vec::new();
        buf.push(addr.addr());
        let mut payload = encode_be(data, size);
        buf.append(&mut payload);
        proof {
            assert(buf@ =~= write_frame(addr, size as nat, data as nat));
        }
        self.cs.set_low();
        self.spi.send(&buf);
        self.cs.set_high();
    }

    /// Reads the 4-byte data register: the low byte is the channel tag,
    /// the remaining 24 bits are the conversion value. The tag is
    /// meaningful only because channel-tag reporting is enabled at
    /// bring-up.
    pub fn read_data(&mut self) -> (r: (u32, u8))
        ensures
            final(self).frames_sent() == old(self).frames_sent().push(read_frame(AdcReg::DATA, 4)),
            final(self).responses().len() == old(self).responses().len() + 1,
            final(self).responses().last().len() == 5,
            r.0 == be_value(final(self).responses().last().skip(1)) / 256,
            r.1 == be_value(final(self).responses().last().skip(1)) % 256,
            (r.0 as nat) < pow2(24),
            final(self).cs_high(),
    {
        let data_ch = self.read(AdcReg::DATA, 4);
        let ch = (data_ch % 256) as u8;
        let data = data_ch / 256;
        proof {
            vstd::arithmetic::power2::lemma2_to64();
            assert((data as nat) < pow2(24)) by (nonlinear_arith)
                requires
                    data == data_ch / 256,
                    (data_ch as nat) < pow2(32),
                    pow2(32) == 0x100000000,
                    pow2(24) == 0x1000000,
            ;
        }
        (data, ch)
    }

    /// Writes the fixed channel, setup and filter configuration: two
    /// enabled channels on distinct input pairs and setups, both setups
    /// unipolar/buffered/external-reference, both filters sinc5/sinc1 at
    /// ~10 Hz with line rejection.
    pub fn setup_channels(&mut self)
        ensures
            final(self).frames_sent() == old(self).frames_sent() + setup_frames(),
            final(self).responses() == old(self).responses(),
            final(self).cs_high(),
    {
        self.write(AdcReg::CH0, 2, CH0_CFG);
        self.write(AdcReg::CH1, 2, CH1_CFG);
        self.write(AdcReg::SETUPCON0, 2, SETUPCON_CFG);
        self.write(AdcReg::SETUPCON1, 2, SETUPCON_CFG);
        self.write(AdcReg::FILTCON0, 2, FILTCON_CFG);
        self.write(AdcReg::FILTCON1, 2, FILTCON_CFG);
        proof {
            assert(self.frames_sent() =~= old(self).frames_sent() + setup_frames());
        }
    }
}

} // verus!
