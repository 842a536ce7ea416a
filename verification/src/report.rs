//! Reports on the node: what it holds and what its channels are, added up
//! from what the engine lists.

use crate::decimal::{decimal_digits, decimal_text};
use crate::hex_utils::{encoded, hex_str};
use vstd::prelude::*;
use vstd::string::*;

verus! {

/// What kind of balance an entry is, as far as the report tells kinds
/// apart.
#[derive(Copy, Clone, Debug, PartialEq, Eq, Structural)]
pub enum BalanceKind {
    /// Claimable once the channel is closed, at the fee given.
    ClaimableOnChannelClose { transaction_fee_satoshis: u64 },
    /// An HTLC that falls to the node if it times out.
    MaybeTimeoutClaimableHTLC { amount_satoshis: u64, outbound_payment: bool },
    /// Any other kind.
    Other,
}

/// One balance that the node can claim.
#[derive(Copy, Clone, Debug, PartialEq, Eq, Structural)]
pub struct BalanceEntry {
    /// The amount that counts as claimable, in satoshis.
    pub claimable_satoshis: u64,
    pub kind: BalanceKind,
}

/// The fee that an entry adds to the cost of closing: the fee of an entry
/// that is claimable on close, nothing for any other.
pub open spec fn close_fee(entry: BalanceEntry) -> nat {
    match entry.kind {
        BalanceKind::ClaimableOnChannelClose { transaction_fee_satoshis } =>
            transaction_fee_satoshis as nat,
        _ => 0,
    }
}

/// What an entry adds to the payments under way: the amount of an HTLC
/// that the node sent, nothing for any other entry.
pub open spec fn pending_outbound(entry: BalanceEntry) -> nat {
    match entry.kind {
        BalanceKind::MaybeTimeoutClaimableHTLC { amount_satoshis, outbound_payment } =>
            if outbound_payment {
            amount_satoshis as nat
        } else {
            0
        },
        _ => 0,
    }
}

/// The sum of the claimable amounts.
pub open spec fn total_claimable(balances: Seq<BalanceEntry>) -> nat
    decreases balances.len(),
{
    if balances.len() == 0 {
        0
    } else {
        total_claimable(balances.drop_last()) + balances.last().claimable_satoshis as nat
    }
}

/// The sum of the close fees.
pub open spec fn total_close_fees(balances: Seq<BalanceEntry>) -> nat
    decreases balances.len(),
{
    if balances.len() == 0 {
        0
    } else {
        total_close_fees(balances.drop_last()) + close_fee(balances.last())
    }
}

/// The sum of the payments under way.
pub open spec fn total_pending_outbound(balances: Seq<BalanceEntry>) -> nat
    decreases balances.len(),
{
    if balances.len() == 0 {
        0
    } else {
        total_pending_outbound(balances.drop_last()) + pending_outbound(balances.last())
    }
}

/// The three sums of the first entries are at most the sums of all.
pub proof fn lemma_totals_grow(balances: Seq<BalanceEntry>, k: int)
    requires
        0 <= k <= balances.len(),
    ensures
        total_claimable(balances.take(k)) <= total_claimable(balances),
        total_close_fees(balances.take(k)) <= total_close_fees(balances),
        total_pending_outbound(balances.take(k)) <= total_pending_outbound(balances),
    decreases balances.len() - k,
{
    if k == balances.len() {
        assert(balances.take(k) =~= balances);
    } else {
        lemma_totals_grow(balances, k + 1);
        assert(balances.take(k + 1).drop_last() =~= balances.take(k));
    }
}

/// The sums over a node's balances.
#[derive(Copy, Clone, Debug, PartialEq, Eq, Structural)]
pub struct BalanceTotals {
    pub local_balance_sats: u64,
    pub eventual_close_fees_sats: u64,
    pub pending_outbound_payments_sats: u64,
}

/// The sums over `balances`, where each of them fits in 64 bits.
pub open spec fn balance_totals(balances: Seq<BalanceEntry>) -> Option<BalanceTotals> {
    if total_claimable(balances) <= u64::MAX && total_close_fees(balances) <= u64::MAX
        && total_pending_outbound(balances) <= u64::MAX {
        Some(
            BalanceTotals {
                local_balance_sats: total_claimable(balances) as u64,
                eventual_close_fees_sats: total_close_fees(balances) as u64,
                pending_outbound_payments_sats: total_pending_outbound(balances) as u64,
            },
        )
    } else {
        None
    }
}

/// Adds up the balances: all that is claimable, the fees that closing
/// would cost, and the payments under way. `None` where a sum does not fit
/// in 64 bits.
pub fn sum_balances(balances: &Vec<BalanceEntry>) -> (r: Option<BalanceTotals>)
    ensures
        r == balance_totals(balances@),
{
    let n: usize = balances.len();
    let mut local: u64 = 0;
    let mut fees: u64 = 0;
    let mut pending: u64 = 0;
    let mut i: usize = 0;
    assert(balances@.take(0) =~= Seq::<BalanceEntry>::empty());
    while i < n
        invariant
            n == balances@.len(),
            i <= n,
            local as nat == total_claimable(balances@.take(i as int)),
            fees as nat == total_close_fees(balances@.take(i as int)),
            pending as nat == total_pending_outbound(balances@.take(i as int)),
        decreases n - i,
    {
        let entry = balances[i];
        let fee: u64 = match entry.kind {
            BalanceKind::ClaimableOnChannelClose { transaction_fee_satoshis } =>
                transaction_fee_satoshis,
            _ => 0,
        };
        let sent: u64 = match entry.kind {
            BalanceKind::MaybeTimeoutClaimableHTLC { amount_satoshis, outbound_payment } =>
                if outbound_payment {
                amount_satoshis
            } else {
                0
            },
            _ => 0,
        };
        proof {
            assert(balances@.take(i + 1).drop_last() =~= balances@.take(i as int));
            assert(balances@.take(i + 1).last() == entry);
            lemma_totals_grow(balances@, i + 1);
        }
        if entry.claimable_satoshis > u64::MAX - local || fee > u64::MAX - fees || sent > u64::MAX
            - pending {
            return None;
        }
        local = local + entry.claimable_satoshis;
        fees = fees + fee;
        pending = pending + sent;
        i = i + 1;
    }
    assert(balances@.take(n as int) =~= balances@);
    Some(
        BalanceTotals {
            local_balance_sats: local,
            eventual_close_fees_sats: fees,
            pending_outbound_payments_sats: pending,
        },
    )
}

/// What the engine says of one channel, as far as the reports show it.
#[derive(Debug, PartialEq, Eq)]
pub struct ChannelSummary {
    pub channel_id: [u8; 32],
    /// The funding transaction's id as it is written, once there is one.
    pub funding_txid: Option<String>,
    /// The peer's public key in compressed form.
    pub peer_pubkey: [u8; 33],
    /// The name that the peer has announced, if it has announced one.
    pub peer_alias: Option<String>,
    pub short_channel_id: Option<u64>,
    pub is_channel_ready: bool,
    pub channel_value_satoshis: u64,
    pub outbound_capacity_msat: u64,
    pub inbound_capacity_msat: u64,
    pub is_usable: bool,
    pub is_announced: bool,
}

/// The number of channels that can carry payments now.
pub open spec fn usable_count(channels: Seq<ChannelSummary>) -> nat
    decreases channels.len(),
{
    if channels.len() == 0 {
        0
    } else {
        usable_count(channels.drop_last()) + if channels.last().is_usable {
            1nat
        } else {
            0nat
        }
    }
}

/// Counts the channels that can carry payments now.
pub fn count_usable(channels: &Vec<ChannelSummary>) -> (r: usize)
    ensures
        r == usable_count(channels@),
{
    let n: usize = channels.len();
    let mut count: usize = 0;
    let mut i: usize = 0;
    assert(channels@.take(0) =~= Seq::<ChannelSummary>::empty());
    while i < n
        invariant
            n == channels@.len(),
            i <= n,
            count <= i,
            count as nat == usable_count(channels@.take(i as int)),
        decreases n - i,
    {
        assert(channels@.take(i + 1).drop_last() =~= channels@.take(i as int));
        if channels[i].is_usable {
            count = count + 1;
        }
        i = i + 1;
    }
    assert(channels@.take(n as int) =~= channels@);
    count
}

/// The text of a truth value.
pub open spec fn bool_text(b: bool) -> Seq<char> {
    if b {
        "true"@
    } else {
        "false"@
    }
}

/// One line of a report: a label, a value and what ends the line.
pub open spec fn line(label: Seq<char>, value: Seq<char>, end: Seq<char>) -> Seq<char> {
    label + value + end
}

/// A line that is only there under a condition.
pub open spec fn line_if(present: bool, text: Seq<char>) -> Seq<char> {
    if present {
        text
    } else {
        Seq::empty()
    }
}

/// The text of an optional string, empty where there is none.
pub open spec fn text_or_empty(text: Option<String>) -> Seq<char> {
    match text {
        Some(text) => text@,
        None => Seq::empty(),
    }
}

/// The text of an optional number, empty where there is none.
pub open spec fn number_or_empty(number: Option<u64>) -> Seq<char> {
    match number {
        Some(number) => decimal_digits(number as nat),
        None => Seq::empty(),
    }
}

/// What the channel list shows of one channel. The funding transaction,
/// the peer's alias and the short channel id are shown where they are
/// known, and the balances to send and to receive only for a channel that
/// is usable.
pub open spec fn channel_text(c: ChannelSummary) -> Seq<char> {
    "\n\t{\n"@ + line("\t\tchannel_id: "@, encoded(c.channel_id@), ",\n"@) + line_if(
        c.funding_txid.is_some(),
        line("\t\tfunding_txid: "@, text_or_empty(c.funding_txid), ",\n"@),
    ) + line("\t\tpeer_pubkey: "@, encoded(c.peer_pubkey@), ",\n"@) + line_if(
        c.peer_alias.is_some(),
        line("\t\tpeer_alias: "@, text_or_empty(c.peer_alias), "\n"@),
    ) + line_if(
        c.short_channel_id.is_some(),
        line("\t\tshort_channel_id: "@, number_or_empty(c.short_channel_id), ",\n"@),
    ) + line("\t\tis_channel_ready: "@, bool_text(c.is_channel_ready), ",\n"@) + line(
        "\t\tchannel_value_satoshis: "@,
        decimal_digits(c.channel_value_satoshis as nat),
        ",\n"@,
    ) + line(
        "\t\toutbound_capacity_msat: "@,
        decimal_digits(c.outbound_capacity_msat as nat),
        ",\n"@,
    ) + line_if(
        c.is_usable,
        line(
            "\t\tavailable_balance_for_send_msat: "@,
            decimal_digits(c.outbound_capacity_msat as nat),
            ",\n"@,
        ),
    ) + line_if(
        c.is_usable,
        line(
            "\t\tavailable_balance_for_recv_msat: "@,
            decimal_digits(c.inbound_capacity_msat as nat),
            ",\n"@,
        ),
    ) + line("\t\tchannel_can_send_payments: "@, bool_text(c.is_usable), ",\n"@) + line(
        "\t\tpublic: "@,
        bool_text(c.is_announced),
        ",\n"@,
    ) + "\t},\n"@
}

/// The texts of the channels, one after the other.
pub open spec fn channels_text(channels: Seq<ChannelSummary>) -> Seq<char>
    decreases channels.len(),
{
    if channels.len() == 0 {
        Seq::empty()
    } else {
        channels_text(channels.drop_last()) + channel_text(channels.last())
    }
}

/// The channel list: the channels between square brackets.
pub open spec fn channel_list_text(channels: Seq<ChannelSummary>) -> Seq<char> {
    "["@ + channels_text(channels) + "]\n"@
}

/// Adds one line to a report.
fn put_line(out: &mut String, label: &str, value: &str, end: &str)
    ensures
        final(out)@ == old(out)@ + line(label@, value@, end@),
{
    out.append(label);
    out.append(value);
    out.append(end);
    assert(out@ =~= old(out)@ + line(label@, value@, end@));
}

/// The word for a truth value.
fn bool_word(b: bool) -> (r: &'static str)
    ensures
        r@ == bool_text(b),
{
    if b {
        "true"
    } else {
        "false"
    }
}

/// Writes what the channel list shows of one channel.
pub fn render_channel(c: &ChannelSummary) -> (r: String)
    ensures
        r@ == channel_text(*c),
{
    let mut out = String::from_str("\n\t{\n");
    put_line(&mut out, "\t\tchannel_id: ", hex_str(c.channel_id.as_slice()).as_str(), ",\n");
    let ghost t1 = out@;
    match &c.funding_txid {
        Some(txid) => {
            put_line(&mut out, "\t\tfunding_txid: ", txid.as_str(), ",\n");
        },
        None => {},
    }
    assert(out@ =~= t1 + line_if(
        c.funding_txid.is_some(),
        line("\t\tfunding_txid: "@, text_or_empty(c.funding_txid), ",\n"@),
    ));
    put_line(&mut out, "\t\tpeer_pubkey: ", hex_str(c.peer_pubkey.as_slice()).as_str(), ",\n");
    let ghost t2 = out@;
    match &c.peer_alias {
        Some(alias) => {
            put_line(&mut out, "\t\tpeer_alias: ", alias.as_str(), "\n");
        },
        None => {},
    }
    assert(out@ =~= t2 + line_if(
        c.peer_alias.is_some(),
        line("\t\tpeer_alias: "@, text_or_empty(c.peer_alias), "\n"@),
    ));
    let ghost t3 = out@;
    match c.short_channel_id {
        Some(id) => {
            put_line(&mut out, "\t\tshort_channel_id: ", decimal_text(id).as_str(), ",\n");
        },
        None => {},
    }
    assert(out@ =~= t3 + line_if(
        c.short_channel_id.is_some(),
        line("\t\tshort_channel_id: "@, number_or_empty(c.short_channel_id), ",\n"@),
    ));
    put_line(&mut out, "\t\tis_channel_ready: ", bool_word(c.is_channel_ready), ",\n");
    put_line(
        &mut out,
        "\t\tchannel_value_satoshis: ",
        decimal_text(c.channel_value_satoshis).as_str(),
        ",\n",
    );
    put_line(
        &mut out,
        "\t\toutbound_capacity_msat: ",
        decimal_text(c.outbound_capacity_msat).as_str(),
        ",\n",
    );
    let ghost t4 = out@;
    if c.is_usable {
        put_line(
            &mut out,
            "\t\tavailable_balance_for_send_msat: ",
            decimal_text(c.outbound_capacity_msat).as_str(),
            ",\n",
        );
    }
    assert(out@ =~= t4 + line_if(
        c.is_usable,
        line(
            "\t\tavailable_balance_for_send_msat: "@,
            decimal_digits(c.outbound_capacity_msat as nat),
            ",\n"@,
        ),
    ));
    let ghost t5 = out@;
    if c.is_usable {
        put_line(
            &mut out,
            "\t\tavailable_balance_for_recv_msat: ",
            decimal_text(c.inbound_capacity_msat).as_str(),
            ",\n",
        );
    }
    assert(out@ =~= t5 + line_if(
        c.is_usable,
        line(
            "\t\tavailable_balance_for_recv_msat: "@,
            decimal_digits(c.inbound_capacity_msat as nat),
            ",\n"@,
        ),
    ));
    put_line(&mut out, "\t\tchannel_can_send_payments: ", bool_word(c.is_usable), ",\n");
    put_line(&mut out, "\t\tpublic: ", bool_word(c.is_announced), ",\n");
    out.append("\t},\n");
    out
}

/// Writes the channel list.
pub fn render_channels(channels: &Vec<ChannelSummary>) -> (r: String)
    ensures
        r@ == channel_list_text(channels@),
{
    let mut out = String::from_str("[");
    let n: usize = channels.len();
    let mut i: usize = 0;
    assert(channels@.take(0) =~= Seq::<ChannelSummary>::empty());
    assert(out@ =~= "["@ + channels_text(channels@.take(0)));
    while i < n
        invariant
            n == channels@.len(),
            i <= n,
            out@ == "["@ + channels_text(channels@.take(i as int)),
        decreases n - i,
    {
        let text = render_channel(&channels[i]);
        out.append(text.as_str());
        proof {
            assert(channels@.take(i + 1).drop_last() =~= channels@.take(i as int));
            assert(out@ =~= "["@ + channels_text(channels@.take(i + 1)));
        }
        i = i + 1;
    }
    assert(channels@.take(n as int) =~= channels@);
    out.append("]\n");
    out
}

/// What `nodeinfo` shows.
#[derive(Copy, Clone, Debug, PartialEq, Eq)]
pub struct NodeSummary {
    /// The node's public key in compressed form.
    pub node_pubkey: [u8; 33],
    pub num_channels: usize,
    pub num_usable_channels: usize,
    pub totals: BalanceTotals,
    pub num_peers: usize,
    pub network_nodes: usize,
    pub network_channels: usize,
}

/// Gathers what `nodeinfo` shows: the counts as given, the usable
/// channels counted and the balances added up. `None` where a sum of
/// balances does not fit in 64 bits.
pub fn summarize_node(
    node_pubkey: [u8; 33],
    channels: &Vec<ChannelSummary>,
    balances: &Vec<BalanceEntry>,
    num_peers: usize,
    network_nodes: usize,
    network_channels: usize,
) -> (r: Option<NodeSummary>)
    ensures
        r.is_some() == balance_totals(balances@).is_some(),
        r matches Some(summary) ==> {
            &&& summary.node_pubkey == node_pubkey
            &&& summary.num_channels == channels@.len()
            &&& summary.num_usable_channels == usable_count(channels@)
            &&& Some(summary.totals) == balance_totals(balances@)
            &&& summary.num_peers == num_peers
            &&& summary.network_nodes == network_nodes
            &&& summary.network_channels == network_channels
        },
{
    match sum_balances(balances) {
        Some(totals) => Some(
            NodeSummary {
                node_pubkey,
                num_channels: channels.len(),
                num_usable_channels: count_usable(channels),
                totals,
                num_peers,
                network_nodes,
                network_channels,
            },
        ),
        None => None,
    }
}

/// What `nodeinfo` prints for a summary: one line for each figure.
pub open spec fn node_info_text(s: NodeSummary) -> Seq<char> {
    "\t{\n"@ + line("\t\t node_pubkey: "@, encoded(s.node_pubkey@), "\n"@) + line(
        "\t\t num_channels: "@,
        decimal_digits(s.num_channels as nat),
        "\n"@,
    ) + line("\t\t num_usable_channels: "@, decimal_digits(s.num_usable_channels as nat), "\n"@)
        + line(
        "\t\t local_balance_sats: "@,
        decimal_digits(s.totals.local_balance_sats as nat),
        "\n"@,
    ) + line(
        "\t\t eventual_close_fees_sats: "@,
        decimal_digits(s.totals.eventual_close_fees_sats as nat),
        "\n"@,
    ) + line(
        "\t\t pending_outbound_payments_sats: "@,
        decimal_digits(s.totals.pending_outbound_payments_sats as nat),
        "\n"@,
    ) + line("\t\t num_peers: "@, decimal_digits(s.num_peers as nat), "\n"@) + line(
        "\t\t network_nodes: "@,
        decimal_digits(s.network_nodes as nat),
        "\n"@,
    ) + line("\t\t network_channels: "@, decimal_digits(s.network_channels as nat), "\n"@)
        + "\t},\n"@
}

/// Writes what `nodeinfo` prints.
pub fn render_node_info(s: &NodeSummary) -> (r: String)
    ensures
        r@ == node_info_text(*s),
{
    let mut out = String::from_str("\t{\n");
    put_line(&mut out, "\t\t node_pubkey: ", hex_str(s.node_pubkey.as_slice()).as_str(), "\n");
    put_line(&mut out, "\t\t num_channels: ", decimal_text(s.num_channels as u64).as_str(), "\n");
    put_line(
        &mut out,
        "\t\t num_usable_channels: ",
        decimal_text(s.num_usable_channels as u64).as_str(),
        "\n",
    );
    put_line(
        &mut out,
        "\t\t local_balance_sats: ",
        decimal_text(s.totals.local_balance_sats).as_str(),
        "\n",
    );
    put_line(
        &mut out,
        "\t\t eventual_close_fees_sats: ",
        decimal_text(s.totals.eventual_close_fees_sats).as_str(),
        "\n",
    );
    put_line(
        &mut out,
        "\t\t pending_outbound_payments_sats: ",
        decimal_text(s.totals.pending_outbound_payments_sats).as_str(),
        "\n",
    );
    put_line(&mut out, "\t\t num_peers: ", decimal_text(s.num_peers as u64).as_str(), "\n");
    put_line(&mut out, "\t\t network_nodes: ", decimal_text(s.network_nodes as u64).as_str(), "\n");
    put_line(
        &mut out,
        "\t\t network_channels: ",
        decimal_text(s.network_channels as u64).as_str(),
        "\n",
    );
    out.append("\t},\n");
    out
}

} // verus!
